//! The grammar: what the parser makes of a token list.
//!
//! ```text
//! program     → declaration* EOF
//! declaration → classDecl | funDecl | varDecl | statement
//! classDecl   → "class" IDENT ( "<" IDENT )? "{" function* "}"
//! funDecl     → "fun" function
//! function    → IDENT "(" parameters? ")" block
//! varDecl     → "var" IDENT ( "=" expression )? ";"
//! statement   → exprStmt | forStmt | ifStmt | printStmt
//!             | returnStmt | whileStmt | block
//! block       → "{" declaration* "}"
//! expression  → conditional
//! conditional → assignment ( "?" expression ":" conditional )?
//! assignment  → ( call "." )? IDENT "=" assignment | logic_or
//! logic_or    → logic_and ( "or" logic_and )*
//! logic_and   → equality ( "and" equality )*
//! equality    → comparison ( ( "!=" | "==" ) comparison )*
//! comparison  → term ( ( ">" | ">=" | "<" | "<=" ) term )*
//! term        → factor ( ( "-" | "+" ) factor )*
//! factor      → unary ( ( "/" | "*" ) unary )*
//! unary       → ( "!" | "-" ) unary | call
//! call        → primary ( "(" arguments? ")" | "." IDENT )*
//! primary     → "true" | "false" | "nil" | "this" | NUMBER | STRING
//!             | IDENT | "(" expression ")" | "super" "." IDENT
//! ```
//!
//! Each production is a function from the tokens and a cursor to what was
//! parsed and the cursor after it. Past the last token the parser sees `Eof`.
//! A variable-shaped expression gets the position of its name token as its
//! id.

use crate::expr::{ExprView, Literal, VariableExpr};
use crate::lox_result::CauseView;
use crate::stmt::{DeclarationView, StmtView};
use crate::token::{Kind, Token, TokenType};
use vstd::prelude::*;

verus! {

/// Where the parser stands: the position of the next token, and the causes
/// reported so far.
pub struct Cursor {
    pub pos: int,
    pub reported: Seq<CauseView>,
}

/// What a production parsed, or the cause of its failure, and where the
/// parser stands after it.
pub struct Parsed<T> {
    pub result: Result<T, CauseView>,
    pub cursor: Cursor,
}

/// The kind of the token at `pos`; `Eof` past the last token.
pub open spec fn kind_at(tokens: Seq<Token>, pos: int) -> Kind {
    if 0 <= pos < tokens.len() {
        tokens[pos].spec_kind()
    } else {
        Kind::Eof
    }
}

/// An error cause at the token at `pos`: its line and lexeme. Past the last
/// token, the line of the last token (1 where there is no token) and an
/// empty lexeme.
pub open spec fn cause_at(tokens: Seq<Token>, pos: int, message: Seq<char>) -> CauseView {
    if 0 <= pos < tokens.len() {
        CauseView { line: tokens[pos].line as int, lexeme: Some(tokens[pos].lexeme@), message }
    } else if tokens.len() > 0 {
        CauseView { line: tokens.last().line as int, lexeme: Some(Seq::empty()), message }
    } else {
        CauseView { line: 1, lexeme: Some(Seq::empty()), message }
    }
}

/// The position after the token at `pos`; `pos` itself past the last token.
pub open spec fn after(tokens: Seq<Token>, pos: int) -> int {
    if 0 <= pos < tokens.len() {
        pos + 1
    } else {
        pos
    }
}

/// How many tokens are left from `pos` on.
pub open spec fn remaining(tokens: Seq<Token>, pos: int) -> nat {
    if pos <= tokens.len() {
        (tokens.len() - pos) as nat
    } else {
        0
    }
}

/// The cursor moved to `pos`.
pub open spec fn at(c: Cursor, pos: int) -> Cursor {
    Cursor { pos, reported: c.reported }
}

/// The cursor with one more cause reported, at the token at `pos`.
pub open spec fn report(tokens: Seq<Token>, c: Cursor, pos: int, message: Seq<char>) -> Cursor {
    Cursor { pos: c.pos, reported: c.reported.push(cause_at(tokens, pos, message)) }
}

/// A production that parsed `value` and stands at `c`.
pub open spec fn done<T>(value: T, c: Cursor) -> Parsed<T> {
    Parsed { result: Ok(value), cursor: c }
}

/// A production that failed at the token at the cursor, with `message`.
pub open spec fn fail<T>(tokens: Seq<Token>, c: Cursor, message: Seq<char>) -> Parsed<T> {
    Parsed { result: Err(cause_at(tokens, c.pos, message)), cursor: c }
}

/// The failure `cause` of a production that stands at `c`.
pub open spec fn failed<T>(cause: CauseView, c: Cursor) -> Parsed<T> {
    Parsed { result: Err(cause), cursor: c }
}

/// `parsed`, given that it was parsed from `before` on: it stands at or
/// after `before` and inside the tokens. (A production never moves back.)
pub open spec fn kept<T>(tokens: Seq<Token>, before: Cursor, parsed: Parsed<T>) -> Parsed<T> {
    if before.pos <= parsed.cursor.pos <= tokens.len() {
        parsed
    } else {
        Parsed {
            result: Err(cause_at(tokens, before.pos, "Expect expression."@)),
            cursor: at(parsed.cursor, tokens.len() as int),
        }
    }
}

/// Whether `kind` is an operator of the binary level `level`: 0 for
/// factors, 1 for terms, 2 for comparisons, 3 for equalities, 4 for `and`,
/// 5 for `or`.
pub open spec fn is_operator(level: nat, kind: Kind) -> bool {
    if level == 0 {
        kind == Kind::Slash || kind == Kind::Star
    } else if level == 1 {
        kind == Kind::Minus || kind == Kind::Plus
    } else if level == 2 {
        kind == Kind::Greater || kind == Kind::GreaterEqual || kind == Kind::Less || kind
            == Kind::LessEqual
    } else if level == 3 {
        kind == Kind::BangEqual || kind == Kind::EqualEqual
    } else if level == 4 {
        kind == Kind::And
    } else if level == 5 {
        kind == Kind::Or
    } else {
        false
    }
}

/// The expression that an operator of `level` makes of its operands.
pub open spec fn combine(level: nat, left: ExprView, operator: Token, right: ExprView) -> ExprView {
    if level >= 4 {
        ExprView::Logical { left: Box::new(left), operator, right: Box::new(right) }
    } else {
        ExprView::Binary { left: Box::new(left), operator, right: Box::new(right) }
    }
}

/// The literal that the token `t` of kind `kind` stands for.
pub open spec fn literal_of(t: Token, kind: Kind) -> Literal {
    match t.token_type {
        TokenType::String(s) => Literal::String(s),
        TokenType::Number(n) => Literal::Number(n),
        _ => if kind == Kind::True {
            Literal::Boolean(true)
        } else if kind == Kind::False {
            Literal::Boolean(false)
        } else {
            Literal::Nil
        },
    }
}

/// Whether `kind` is the kind of a literal.
pub open spec fn is_literal(kind: Kind) -> bool {
    kind == Kind::True || kind == Kind::False || kind == Kind::Nil || kind == Kind::String || kind
        == Kind::Number
}

/// primary → literal | "this" | IDENT | "(" expression ")" | "super" "." IDENT
pub open spec fn primary(tokens: Seq<Token>, c: Cursor) -> Parsed<ExprView>
    decreases remaining(tokens, c.pos), 1nat,
{
    let kind = kind_at(tokens, c.pos);
    let next = at(c, after(tokens, c.pos));
    if is_literal(kind) {
        done(ExprView::Literal { literal: literal_of(tokens[c.pos], kind) }, next)
    } else if kind == Kind::This {
        done(ExprView::This { id: c.pos as usize, keyword: tokens[c.pos] }, next)
    } else if kind == Kind::Identifier {
        done(ExprView::Variable { id: c.pos as usize, name: tokens[c.pos] }, next)
    } else if kind == Kind::Super {
        if kind_at(tokens, next.pos) != Kind::Dot {
            fail(tokens, next, "Expect '.' after 'super'."@)
        } else if kind_at(tokens, next.pos + 1) != Kind::Identifier {
            fail(tokens, at(c, next.pos + 1), "Expect superclass method name."@)
        } else {
            done(
                ExprView::Super {
                    id: c.pos as usize,
                    keyword: tokens[c.pos],
                    method: tokens[next.pos + 1],
                },
                at(c, next.pos + 2),
            )
        }
    } else if kind == Kind::LeftParen {
        let inner = kept(tokens, next, expression(tokens, next));
        match inner.result {
            Ok(e) => if kind_at(tokens, inner.cursor.pos) == Kind::RightParen {
                done(
                    ExprView::Grouping { expression: Box::new(e) },
                    at(inner.cursor, inner.cursor.pos + 1),
                )
            } else {
                fail(tokens, inner.cursor, "Expect ')' after expression"@)
            },
            Err(_) => inner,
        }
    } else {
        failed(cause_at(tokens, c.pos, "Expect expression."@), next)
    }
}

/// arguments → expression ( "," expression )*, after the arguments in
/// `so_far`. An argument beyond the 255th is reported and parsed all the
/// same.
pub open spec fn arguments(tokens: Seq<Token>, c: Cursor, so_far: Seq<ExprView>) -> Parsed<
    Seq<ExprView>,
>
    decreases remaining(tokens, c.pos), 50nat,
{
    let told = if so_far.len() >= 255 {
        report(tokens, c, c.pos, "Can't have more than 255 arguments."@)
    } else {
        c
    };
    let argument = kept(tokens, told, expression(tokens, told));
    match argument.result {
        Ok(e) => if kind_at(tokens, argument.cursor.pos) == Kind::Comma {
            arguments(tokens, at(argument.cursor, argument.cursor.pos + 1), so_far.push(e))
        } else {
            done(so_far.push(e), argument.cursor)
        },
        Err(cause) => failed(cause, argument.cursor),
    }
}

/// The rest of a call after its "(": arguments? ")".
pub open spec fn finish_call(tokens: Seq<Token>, c: Cursor, callee: ExprView) -> Parsed<ExprView>
    decreases remaining(tokens, c.pos), 51nat,
{
    let list = if kind_at(tokens, c.pos) != Kind::RightParen {
        kept(tokens, c, arguments(tokens, c, Seq::empty()))
    } else {
        done(Seq::empty(), c)
    };
    match list.result {
        Ok(arguments) => if kind_at(tokens, list.cursor.pos) == Kind::RightParen {
            done(
                ExprView::Call {
                    callee: Box::new(callee),
                    paren: tokens[list.cursor.pos],
                    arguments,
                },
                at(list.cursor, list.cursor.pos + 1),
            )
        } else {
            fail(tokens, list.cursor, "Expect ')' after arguments."@)
        },
        Err(cause) => failed(cause, list.cursor),
    }
}

/// ( "(" arguments? ")" | "." IDENT )*, after the callee.
pub open spec fn call_rest(tokens: Seq<Token>, c: Cursor, callee: ExprView) -> Parsed<ExprView>
    decreases remaining(tokens, c.pos), 3nat,
{
    let kind = kind_at(tokens, c.pos);
    if kind == Kind::LeftParen {
        let called = kept(
            tokens,
            at(c, c.pos + 1),
            finish_call(tokens, at(c, c.pos + 1), callee),
        );
        match called.result {
            Ok(e) => call_rest(tokens, called.cursor, e),
            Err(_) => called,
        }
    } else if kind == Kind::Dot {
        if kind_at(tokens, c.pos + 1) == Kind::Identifier {
            call_rest(
                tokens,
                at(c, c.pos + 2),
                ExprView::Get { object: Box::new(callee), name: tokens[c.pos + 1] },
            )
        } else {
            fail(tokens, at(c, c.pos + 1), "Expect property name after '.'."@)
        }
    } else {
        done(callee, c)
    }
}

/// call → primary ( "(" arguments? ")" | "." IDENT )*
pub open spec fn call(tokens: Seq<Token>, c: Cursor) -> Parsed<ExprView>
    decreases remaining(tokens, c.pos), 4nat,
{
    let callee = kept(tokens, c, primary(tokens, c));
    match callee.result {
        Ok(e) => call_rest(tokens, callee.cursor, e),
        Err(_) => callee,
    }
}

/// unary → ( "!" | "-" ) unary | call
pub open spec fn unary(tokens: Seq<Token>, c: Cursor) -> Parsed<ExprView>
    decreases remaining(tokens, c.pos), 5nat,
{
    let kind = kind_at(tokens, c.pos);
    if kind == Kind::Bang || kind == Kind::Minus {
        let operand = kept(tokens, at(c, c.pos + 1), unary(tokens, at(c, c.pos + 1)));
        match operand.result {
            Ok(e) => done(
                ExprView::Unary { operator: tokens[c.pos], right: Box::new(e) },
                operand.cursor,
            ),
            Err(_) => operand,
        }
    } else {
        call(tokens, c)
    }
}

/// ( operator operand )*, after the left operand, for the operators of
/// `level`: they group to the left.
pub open spec fn binary_rest(tokens: Seq<Token>, c: Cursor, level: nat, left: ExprView) -> Parsed<
    ExprView,
>
    decreases remaining(tokens, c.pos), 10 + 2 * level,
{
    if is_operator(level, kind_at(tokens, c.pos)) {
        let next = at(c, c.pos + 1);
        let right = kept(
            tokens,
            next,
            if level == 0 {
                unary(tokens, next)
            } else {
                binary(tokens, next, (level - 1) as nat)
            },
        );
        match right.result {
            Ok(e) => binary_rest(
                tokens,
                right.cursor,
                level,
                combine(level, left, tokens[c.pos], e),
            ),
            Err(_) => right,
        }
    } else {
        done(left, c)
    }
}

/// operand ( operator operand )* for the operators of `level`, whose
/// operands are of the level below, and unary expressions at level 0.
pub open spec fn binary(tokens: Seq<Token>, c: Cursor, level: nat) -> Parsed<ExprView>
    decreases remaining(tokens, c.pos), 11 + 2 * level,
{
    let left = kept(
        tokens,
        c,
        if level == 0 {
            unary(tokens, c)
        } else {
            binary(tokens, c, (level - 1) as nat)
        },
    );
    match left.result {
        Ok(e) => binary_rest(tokens, left.cursor, level, e),
        Err(_) => left,
    }
}

/// What assigning `value` to `target` is: an assignment to a variable, a
/// field set on a property; for any other target the target itself, with
/// the cause reported at the `=` at `equals`.
pub open spec fn assign_to(
    tokens: Seq<Token>,
    target: ExprView,
    equals: int,
    value: ExprView,
    c: Cursor,
) -> Parsed<ExprView> {
    match target {
        ExprView::Variable { id, name } => done(
            ExprView::Assign { id, name, value: Box::new(value) },
            c,
        ),
        ExprView::Get { object, name } => done(
            ExprView::SetField { object, name, value: Box::new(value) },
            c,
        ),
        _ => done(target, report(tokens, c, equals, "Invalid assignment target."@)),
    }
}

/// assignment → ( call "." )? IDENT "=" assignment | logic_or
pub open spec fn assignment(tokens: Seq<Token>, c: Cursor) -> Parsed<ExprView>
    decreases remaining(tokens, c.pos), 30nat,
{
    let target = kept(tokens, c, binary(tokens, c, 5));
    match target.result {
        Ok(e) => if kind_at(tokens, target.cursor.pos) == Kind::Equal {
            let next = at(target.cursor, target.cursor.pos + 1);
            let value = kept(tokens, next, assignment(tokens, next));
            match value.result {
                Ok(v) => assign_to(tokens, e, target.cursor.pos, v, value.cursor),
                Err(_) => value,
            }
        } else {
            target
        },
        Err(_) => target,
    }
}

/// conditional → assignment ( "?" expression ":" conditional )?
pub open spec fn conditional(tokens: Seq<Token>, c: Cursor) -> Parsed<ExprView>
    decreases remaining(tokens, c.pos), 31nat,
{
    let condition = kept(tokens, c, assignment(tokens, c));
    match condition.result {
        Ok(e) => if kind_at(tokens, condition.cursor.pos) == Kind::QuestionMark {
            let next = at(condition.cursor, condition.cursor.pos + 1);
            let left = kept(tokens, next, expression(tokens, next));
            match left.result {
                Ok(l) => if kind_at(tokens, left.cursor.pos) == Kind::Colon {
                    let rest = at(left.cursor, left.cursor.pos + 1);
                    let right = kept(tokens, rest, conditional(tokens, rest));
                    match right.result {
                        Ok(r) => done(
                            ExprView::Conditional {
                                condition: Box::new(e),
                                left: Box::new(l),
                                right: Box::new(r),
                            },
                            right.cursor,
                        ),
                        Err(_) => right,
                    }
                } else {
                    fail(tokens, left.cursor, "Expect ':' after truthy expression"@)
                },
                Err(_) => left,
            }
        } else {
            condition
        },
        Err(_) => condition,
    }
}

/// expression → conditional
pub open spec fn expression(tokens: Seq<Token>, c: Cursor) -> Parsed<ExprView>
    decreases remaining(tokens, c.pos), 32nat,
{
    conditional(tokens, c)
}

/// The statement `make` makes of an expression, once the ";" after it is
/// read; without the ";" a failure with `message`.
pub open spec fn terminated(
    tokens: Seq<Token>,
    e: Parsed<ExprView>,
    make: spec_fn(ExprView) -> StmtView,
    message: Seq<char>,
) -> Parsed<StmtView> {
    match e.result {
        Ok(x) => if kind_at(tokens, e.cursor.pos) == Kind::Semicolon {
            done(make(x), at(e.cursor, e.cursor.pos + 1))
        } else {
            fail(tokens, e.cursor, message)
        },
        Err(cause) => failed(cause, e.cursor),
    }
}

/// exprStmt → expression ";"
pub open spec fn expression_statement(tokens: Seq<Token>, c: Cursor) -> Parsed<StmtView>
    decreases remaining(tokens, c.pos), 33nat,
{
    terminated(
        tokens,
        kept(tokens, c, expression(tokens, c)),
        |e: ExprView| StmtView::Expression { expression: e },
        "Expect ';' after expression."@,
    )
}

/// printStmt → "print" expression ";", after the "print".
pub open spec fn print_statement(tokens: Seq<Token>, c: Cursor) -> Parsed<StmtView>
    decreases remaining(tokens, c.pos), 33nat,
{
    terminated(
        tokens,
        kept(tokens, c, expression(tokens, c)),
        |e: ExprView| StmtView::Print { expression: e },
        "Expect ';' after expression"@,
    )
}

/// returnStmt → "return" expression? ";", at the "return".
pub open spec fn return_statement(tokens: Seq<Token>, c: Cursor) -> Parsed<StmtView>
    decreases remaining(tokens, c.pos), 34nat,
{
    let keyword = tokens[c.pos];
    let next = at(c, after(tokens, c.pos));
    if kind_at(tokens, next.pos) == Kind::Semicolon {
        done(StmtView::Return { keyword, value: None }, at(next, next.pos + 1))
    } else if next.pos > c.pos {
        terminated(
            tokens,
            kept(tokens, next, expression(tokens, next)),
            |e: ExprView| StmtView::Return { keyword, value: Some(e) },
            "Expect ';' after return value."@,
        )
    } else {
        fail(tokens, next, "Expect ';' after return value."@)
    }
}

/// varDecl → "var" IDENT ( "=" expression )? ";", after the "var".
pub open spec fn var_declaration(tokens: Seq<Token>, c: Cursor) -> Parsed<StmtView>
    decreases remaining(tokens, c.pos), 34nat,
{
    if kind_at(tokens, c.pos) != Kind::Identifier {
        fail(tokens, c, "Expect variable name."@)
    } else {
        let name = tokens[c.pos];
        let message = "Expect ';' after variable declaration."@;
        if kind_at(tokens, c.pos + 1) == Kind::Equal {
            terminated(
                tokens,
                kept(tokens, at(c, c.pos + 2), expression(tokens, at(c, c.pos + 2))),
                |e: ExprView| StmtView::Var { name, initializer: Some(e) },
                message,
            )
        } else if kind_at(tokens, c.pos + 1) == Kind::Semicolon {
            done(StmtView::Var { name, initializer: None }, at(c, c.pos + 2))
        } else {
            fail(tokens, at(c, c.pos + 1), message)
        }
    }
}

/// "(" expression ")": a condition in parentheses. The messages are those
/// for a missing "(" and a missing ")".
pub open spec fn condition(tokens: Seq<Token>, c: Cursor, opening: Seq<char>, closing: Seq<char>)
    -> Parsed<ExprView>
    decreases remaining(tokens, c.pos), 34nat,
{
    if kind_at(tokens, c.pos) != Kind::LeftParen {
        fail(tokens, c, opening)
    } else {
        let inner = kept(tokens, at(c, c.pos + 1), expression(tokens, at(c, c.pos + 1)));
        match inner.result {
            Ok(e) => if kind_at(tokens, inner.cursor.pos) == Kind::RightParen {
                done(e, at(inner.cursor, inner.cursor.pos + 1))
            } else {
                fail(tokens, inner.cursor, closing)
            },
            Err(_) => inner,
        }
    }
}

/// whileStmt → "while" "(" expression ")" statement, after the "while".
pub open spec fn while_statement(tokens: Seq<Token>, c: Cursor) -> Parsed<StmtView>
    decreases remaining(tokens, c.pos), 35nat,
{
    let head = kept(
        tokens,
        c,
        condition(tokens, c, "Expect '(' after 'while'."@, "Expect ')' after condition."@),
    );
    match head.result {
        Ok(e) => if head.cursor.pos > c.pos {
            let body = kept(tokens, head.cursor, statement(tokens, head.cursor));
            match body.result {
                Ok(s) => done(StmtView::While { condition: e, body: Box::new(s) }, body.cursor),
                Err(_) => body,
            }
        } else {
            failed(cause_at(tokens, c.pos, "Expect '(' after 'while'."@), head.cursor)
        },
        Err(cause) => failed(cause, head.cursor),
    }
}

/// ifStmt → "if" "(" expression ")" statement ( "else" statement )?, after
/// the "if".
pub open spec fn if_statement(tokens: Seq<Token>, c: Cursor) -> Parsed<StmtView>
    decreases remaining(tokens, c.pos), 35nat,
{
    let head = kept(
        tokens,
        c,
        condition(tokens, c, "Expect '(' after if."@, "Expect ')' after if condition."@),
    );
    match head.result {
        Ok(e) => if head.cursor.pos > c.pos {
            let then_branch = kept(tokens, head.cursor, statement(tokens, head.cursor));
            match then_branch.result {
                Ok(t) => if kind_at(tokens, then_branch.cursor.pos) == Kind::Else {
                    let next = at(then_branch.cursor, then_branch.cursor.pos + 1);
                    let else_branch = kept(tokens, next, statement(tokens, next));
                    match else_branch.result {
                        Ok(o) => done(
                            StmtView::If {
                                condition: e,
                                then_branch: Box::new(t),
                                else_branch: Some(Box::new(o)),
                            },
                            else_branch.cursor,
                        ),
                        Err(_) => else_branch,
                    }
                } else {
                    done(
                        StmtView::If {
                            condition: e,
                            then_branch: Box::new(t),
                            else_branch: None,
                        },
                        then_branch.cursor,
                    )
                },
                Err(_) => then_branch,
            }
        } else {
            failed(cause_at(tokens, c.pos, "Expect '(' after if."@), head.cursor)
        },
        Err(cause) => failed(cause, head.cursor),
    }
}

/// The loop that a `for` stands for: `{ init; while (cond) { body; inc; } }`,
/// without the inner block where there is no increment, and without the
/// outer one where there is no initializer.
pub open spec fn desugar(
    initializer: Option<StmtView>,
    condition: ExprView,
    increment: Option<ExprView>,
    body: StmtView,
) -> StmtView {
    let stepped = match increment {
        Some(i) => StmtView::Block { statements: seq![body, StmtView::Expression { expression: i }] },
        None => body,
    };
    let looped = StmtView::While { condition, body: Box::new(stepped) };
    match initializer {
        Some(i) => StmtView::Block { statements: seq![i, looped] },
        None => looped,
    }
}

/// The initializer clause of a `for`: ";" for none, a variable declaration,
/// or an expression statement.
pub open spec fn for_initializer(tokens: Seq<Token>, c: Cursor) -> Parsed<Option<StmtView>>
    decreases remaining(tokens, c.pos), 35nat,
{
    let kind = kind_at(tokens, c.pos);
    if kind == Kind::Semicolon {
        done(None, at(c, c.pos + 1))
    } else {
        let clause = if kind == Kind::Var {
            kept(tokens, at(c, c.pos + 1), var_declaration(tokens, at(c, c.pos + 1)))
        } else {
            kept(tokens, c, expression_statement(tokens, c))
        };
        match clause.result {
            Ok(s) => done(Some(s), clause.cursor),
            Err(cause) => failed(cause, clause.cursor),
        }
    }
}

/// An optional expression up to the token of kind `stop`, which is read
/// too; without it a failure with `message`.
pub open spec fn for_clause(tokens: Seq<Token>, c: Cursor, stop: Kind, message: Seq<char>) -> Parsed<
    Option<ExprView>,
>
    decreases remaining(tokens, c.pos), 35nat,
{
    if kind_at(tokens, c.pos) == stop {
        done(None, at(c, after(tokens, c.pos)))
    } else {
        let clause = kept(tokens, c, expression(tokens, c));
        match clause.result {
            Ok(e) => if kind_at(tokens, clause.cursor.pos) == stop {
                done(Some(e), at(clause.cursor, after(tokens, clause.cursor.pos)))
            } else {
                fail(tokens, clause.cursor, message)
            },
            Err(cause) => failed(cause, clause.cursor),
        }
    }
}

/// forStmt → "for" "(" ( varDecl | exprStmt | ";" ) expression? ";"
/// expression? ")" statement, after the "for". A missing condition is
/// `true`.
pub open spec fn for_statement(tokens: Seq<Token>, c: Cursor) -> Parsed<StmtView>
    decreases remaining(tokens, c.pos), 36nat,
{
    if kind_at(tokens, c.pos) != Kind::LeftParen {
        fail(tokens, c, "Expect '(' after 'for'."@)
    } else {
        let start = at(c, c.pos + 1);
        let initializer = kept(tokens, start, for_initializer(tokens, start));
        match initializer.result {
            Ok(i) => {
                let condition = kept(
                    tokens,
                    initializer.cursor,
                    for_clause(
                        tokens,
                        initializer.cursor,
                        Kind::Semicolon,
                        "Expect ';' after loop condition."@,
                    ),
                );
                match condition.result {
                    Ok(k) => {
                        let increment = kept(
                            tokens,
                            condition.cursor,
                            for_clause(
                                tokens,
                                condition.cursor,
                                Kind::RightParen,
                                "Expect ')' after for clauses."@,
                            ),
                        );
                        match increment.result {
                            Ok(n) => {
                                let body = kept(
                                    tokens,
                                    increment.cursor,
                                    statement(tokens, increment.cursor),
                                );
                                match body.result {
                                    Ok(b) => done(
                                        desugar(
                                            i,
                                            match k {
                                                Some(e) => e,
                                                None => ExprView::Literal {
                                                    literal: Literal::Boolean(true),
                                                },
                                            },
                                            n,
                                            b,
                                        ),
                                        body.cursor,
                                    ),
                                    Err(_) => body,
                                }
                            },
                            Err(cause) => failed(cause, increment.cursor),
                        }
                    },
                    Err(cause) => failed(cause, condition.cursor),
                }
            },
            Err(cause) => failed(cause, initializer.cursor),
        }
    }
}

/// declaration* "}", after the statements in `so_far`.
pub open spec fn block_rest(tokens: Seq<Token>, c: Cursor, so_far: Seq<StmtView>) -> Parsed<
    Seq<StmtView>,
>
    decreases remaining(tokens, c.pos), 42nat,
{
    let kind = kind_at(tokens, c.pos);
    if kind == Kind::RightBrace {
        done(so_far, at(c, c.pos + 1))
    } else if kind == Kind::Eof {
        fail(tokens, c, "Expect '}' after block."@)
    } else {
        let next = kept(tokens, c, declaration(tokens, c));
        match next.result {
            Ok(s) => if next.cursor.pos > c.pos {
                block_rest(tokens, next.cursor, so_far.push(s))
            } else {
                fail(tokens, c, "Expect '}' after block."@)
            },
            Err(cause) => failed(cause, next.cursor),
        }
    }
}

/// block → "{" declaration* "}", after the "{".
pub open spec fn block(tokens: Seq<Token>, c: Cursor) -> Parsed<Seq<StmtView>>
    decreases remaining(tokens, c.pos), 43nat,
{
    block_rest(tokens, c, Seq::empty())
}

/// statement → exprStmt | forStmt | ifStmt | printStmt | returnStmt
///           | whileStmt | block
pub open spec fn statement(tokens: Seq<Token>, c: Cursor) -> Parsed<StmtView>
    decreases remaining(tokens, c.pos), 40nat,
{
    let kind = kind_at(tokens, c.pos);
    let next = at(c, c.pos + 1);
    if kind == Kind::If {
        if_statement(tokens, next)
    } else if kind == Kind::Print {
        print_statement(tokens, next)
    } else if kind == Kind::Return {
        return_statement(tokens, c)
    } else if kind == Kind::While {
        while_statement(tokens, next)
    } else if kind == Kind::For {
        for_statement(tokens, next)
    } else if kind == Kind::LeftBrace {
        let body = block(tokens, next);
        match body.result {
            Ok(statements) => done(StmtView::Block { statements }, body.cursor),
            Err(cause) => failed(cause, body.cursor),
        }
    } else {
        expression_statement(tokens, c)
    }
}

/// parameters → IDENT ( "," IDENT )*, after the parameters in `so_far`. A
/// parameter beyond the 255th is reported and taken all the same.
pub open spec fn parameters(tokens: Seq<Token>, c: Cursor, so_far: Seq<Token>) -> Parsed<Seq<Token>>
    decreases remaining(tokens, c.pos),
{
    if kind_at(tokens, c.pos) != Kind::Identifier {
        fail(tokens, c, "Expect parameter name."@)
    } else {
        let told = if so_far.len() >= 255 {
            report(tokens, c, c.pos, "Can't have more than 255 parameters."@)
        } else {
            c
        };
        if kind_at(tokens, c.pos + 1) == Kind::Comma {
            parameters(tokens, at(told, c.pos + 2), so_far.push(tokens[c.pos]))
        } else {
            done(so_far.push(tokens[c.pos]), at(told, c.pos + 1))
        }
    }
}

/// function → IDENT "(" parameters? ")" block, for a function or a method
/// as `what` says.
pub open spec fn function(tokens: Seq<Token>, c: Cursor, what: Seq<char>) -> Parsed<DeclarationView>
    decreases remaining(tokens, c.pos), 44nat,
{
    if kind_at(tokens, c.pos) != Kind::Identifier {
        fail(tokens, c, "Expect "@ + what + " name."@)
    } else if kind_at(tokens, c.pos + 1) != Kind::LeftParen {
        fail(tokens, at(c, c.pos + 1), "Expect '(' after "@ + what + " name."@)
    } else {
        let list = if kind_at(tokens, c.pos + 2) != Kind::RightParen {
            kept(tokens, at(c, c.pos + 2), parameters(tokens, at(c, c.pos + 2), Seq::empty()))
        } else {
            done(Seq::empty(), at(c, c.pos + 2))
        };
        match list.result {
            Ok(params) => if kind_at(tokens, list.cursor.pos) != Kind::RightParen {
                fail(tokens, list.cursor, "Expect ')' after parameters."@)
            } else if kind_at(tokens, list.cursor.pos + 1) != Kind::LeftBrace {
                fail(
                    tokens,
                    at(list.cursor, list.cursor.pos + 1),
                    "Expect '{' before "@ + what + " body."@,
                )
            } else {
                let start = at(list.cursor, list.cursor.pos + 2);
                let body = kept(tokens, start, block(tokens, start));
                match body.result {
                    Ok(statements) => done(
                        DeclarationView { name: tokens[c.pos], params, body: statements },
                        body.cursor,
                    ),
                    Err(cause) => failed(cause, body.cursor),
                }
            },
            Err(cause) => failed(cause, list.cursor),
        }
    }
}

/// function* "}", after the methods in `so_far`.
pub open spec fn methods_rest(tokens: Seq<Token>, c: Cursor, so_far: Seq<DeclarationView>) -> Parsed<
    Seq<DeclarationView>,
>
    decreases remaining(tokens, c.pos), 45nat,
{
    let kind = kind_at(tokens, c.pos);
    if kind == Kind::RightBrace {
        done(so_far, at(c, c.pos + 1))
    } else if kind == Kind::Eof {
        fail(tokens, c, "Expect '}' after class body."@)
    } else {
        let method = kept(tokens, c, function(tokens, c, "method"@));
        match method.result {
            Ok(m) => if method.cursor.pos > c.pos {
                methods_rest(tokens, method.cursor, so_far.push(m))
            } else {
                fail(tokens, c, "Expect '}' after class body."@)
            },
            Err(cause) => failed(cause, method.cursor),
        }
    }
}

/// classDecl → "class" IDENT ( "<" IDENT )? "{" function* "}", after the
/// "class".
pub open spec fn class_declaration(tokens: Seq<Token>, c: Cursor) -> Parsed<StmtView>
    decreases remaining(tokens, c.pos), 46nat,
{
    if kind_at(tokens, c.pos) != Kind::Identifier {
        fail(tokens, c, "Expect class name."@)
    } else if kind_at(tokens, c.pos + 1) == Kind::Less && kind_at(tokens, c.pos + 2)
        != Kind::Identifier {
        fail(tokens, at(c, c.pos + 2), "Expect superclass name."@)
    } else {
        let superclass = if kind_at(tokens, c.pos + 1) == Kind::Less {
            Some(VariableExpr { id: (c.pos + 2) as usize, name: tokens[c.pos + 2] })
        } else {
            None
        };
        let brace = if superclass is Some {
            c.pos + 3
        } else {
            c.pos + 1
        };
        if kind_at(tokens, brace) != Kind::LeftBrace {
            fail(tokens, at(c, brace), "Expect '{' before class body."@)
        } else {
            let body = kept(
                tokens,
                at(c, brace + 1),
                methods_rest(tokens, at(c, brace + 1), Seq::empty()),
            );
            match body.result {
                Ok(methods) => done(
                    StmtView::Class { name: tokens[c.pos], methods, superclass },
                    body.cursor,
                ),
                Err(cause) => failed(cause, body.cursor),
            }
        }
    }
}

/// declaration → classDecl | funDecl | varDecl | statement
pub open spec fn declaration(tokens: Seq<Token>, c: Cursor) -> Parsed<StmtView>
    decreases remaining(tokens, c.pos), 41nat,
{
    let kind = kind_at(tokens, c.pos);
    let next = at(c, c.pos + 1);
    if kind == Kind::Var {
        var_declaration(tokens, next)
    } else if kind == Kind::Fun {
        let declared = function(tokens, next, "function"@);
        match declared.result {
            Ok(declaration) => done(StmtView::Function { declaration }, declared.cursor),
            Err(cause) => failed(cause, declared.cursor),
        }
    } else if kind == Kind::Class {
        class_declaration(tokens, next)
    } else {
        statement(tokens, c)
    }
}

/// Whether a statement may start with a token of kind `kind`, by its
/// keyword.
pub open spec fn starts_statement(kind: Kind) -> bool {
    kind == Kind::Class || kind == Kind::Fun || kind == Kind::Var || kind == Kind::For || kind
        == Kind::If || kind == Kind::While || kind == Kind::Print || kind == Kind::Return
}

/// Where parsing resumes after an error at `pos`: at the next token that
/// may start a statement, or at `Eof`.
pub open spec fn synchronize(tokens: Seq<Token>, pos: int) -> int
    decreases remaining(tokens, pos),
{
    let kind = kind_at(tokens, pos);
    if kind == Kind::Eof || starts_statement(kind) || pos < 0 || pos >= tokens.len() {
        pos
    } else {
        synchronize(tokens, pos + 1)
    }
}

/// What is parsed from the cursor on, after the statements in `so_far`:
/// declarations up to `Eof`. The cause of a failed declaration is reported,
/// and parsing resumes where `synchronize` says.
pub open spec fn program(tokens: Seq<Token>, c: Cursor, so_far: Seq<StmtView>) -> (Seq<StmtView>, Seq<
    CauseView,
>)
    decreases remaining(tokens, c.pos),
{
    if kind_at(tokens, c.pos) == Kind::Eof {
        (so_far, c.reported)
    } else {
        let next = declaration(tokens, c);
        match next.result {
            Ok(s) => if c.pos < next.cursor.pos <= tokens.len() {
                program(tokens, next.cursor, so_far.push(s))
            } else {
                (so_far, next.cursor.reported)
            },
            Err(cause) => {
                let resume = synchronize(tokens, next.cursor.pos);
                let reported = next.cursor.reported.push(cause);
                if c.pos < resume <= tokens.len() {
                    program(tokens, Cursor { pos: resume, reported }, so_far)
                } else {
                    (so_far, reported)
                }
            },
        }
    }
}

/// The result of parsing `tokens`: the statements of the program, or, where
/// anything was reported, the causes in the order they were found.
pub open spec fn parse(tokens: Seq<Token>) -> Result<Seq<StmtView>, Seq<CauseView>> {
    let all = program(tokens, Cursor { pos: 0, reported: Seq::empty() }, Seq::empty());
    if all.1.len() == 0 {
        Ok(all.0)
    } else {
        Err(all.1)
    }
}


/// Whether `p`, parsed from `c` on, stands at or after `c` and inside the
/// tokens.
pub open spec fn inside<T>(tokens: Seq<Token>, c: Cursor, p: Parsed<T>) -> bool {
    c.pos <= p.cursor.pos <= tokens.len()
}

/// Whether `p`, parsed from `c` on, stands inside the tokens and after `c`
/// where there was a token at `c` to read.
pub open spec fn moved<T>(tokens: Seq<Token>, c: Cursor, p: Parsed<T>) -> bool {
    &&& inside(tokens, c, p)
    &&& c.pos < tokens.len() ==> c.pos < p.cursor.pos
}

/// What stands inside the tokens and has not moved back is kept as it is.
pub proof fn lemma_kept<T>(tokens: Seq<Token>, c: Cursor, p: Parsed<T>)
    requires
        inside(tokens, c, p),
    ensures
        kept(tokens, c, p) == p,
{
}

/// A primary expression reads at least one token, and never moves back.
pub proof fn lemma_primary_moves(tokens: Seq<Token>, c: Cursor)
    requires
        0 <= c.pos <= tokens.len(),
    ensures
        moved(tokens, c, primary(tokens, c)),
    decreases remaining(tokens, c.pos), 1nat,
{
    if kind_at(tokens, c.pos) == Kind::LeftParen {
        lemma_expression_moves(tokens, at(c, c.pos + 1));
    }
}

/// Arguments never move back.
pub proof fn lemma_arguments_move(tokens: Seq<Token>, c: Cursor, so_far: Seq<ExprView>)
    requires
        0 <= c.pos <= tokens.len(),
    ensures
        moved(tokens, c, arguments(tokens, c, so_far)),
    decreases remaining(tokens, c.pos), 50nat,
{
    let told = if so_far.len() >= 255 {
        report(tokens, c, c.pos, "Can't have more than 255 arguments."@)
    } else {
        c
    };
    lemma_expression_moves(tokens, told);
    let argument = expression(tokens, told);
    match argument.result {
        Ok(e) => {
            if kind_at(tokens, argument.cursor.pos) == Kind::Comma {
                lemma_arguments_move(
                    tokens,
                    at(argument.cursor, argument.cursor.pos + 1),
                    so_far.push(e),
                );
            }
        },
        Err(_) => {},
    }
}

/// The rest of a call never moves back.
pub proof fn lemma_finish_call_moves(tokens: Seq<Token>, c: Cursor, callee: ExprView)
    requires
        0 <= c.pos <= tokens.len(),
    ensures
        inside(tokens, c, finish_call(tokens, c, callee)),
    decreases remaining(tokens, c.pos), 51nat,
{
    if kind_at(tokens, c.pos) != Kind::RightParen {
        lemma_arguments_move(tokens, c, Seq::empty());
    }
}

/// Calls and property accesses after a callee never move back.
pub proof fn lemma_call_rest_moves(tokens: Seq<Token>, c: Cursor, callee: ExprView)
    requires
        0 <= c.pos <= tokens.len(),
    ensures
        inside(tokens, c, call_rest(tokens, c, callee)),
    decreases remaining(tokens, c.pos), 3nat,
{
    let kind = kind_at(tokens, c.pos);
    if kind == Kind::LeftParen {
        lemma_finish_call_moves(tokens, at(c, c.pos + 1), callee);
        let called = finish_call(tokens, at(c, c.pos + 1), callee);
        match called.result {
            Ok(e) => {
                lemma_call_rest_moves(tokens, called.cursor, e);
            },
            Err(_) => {},
        }
    } else if kind == Kind::Dot {
        if kind_at(tokens, c.pos + 1) == Kind::Identifier {
            lemma_call_rest_moves(
                tokens,
                at(c, c.pos + 2),
                ExprView::Get { object: Box::new(callee), name: tokens[c.pos + 1] },
            );
        }
    }
}

/// A call reads at least one token, and never moves back.
pub proof fn lemma_call_moves(tokens: Seq<Token>, c: Cursor)
    requires
        0 <= c.pos <= tokens.len(),
    ensures
        moved(tokens, c, call(tokens, c)),
    decreases remaining(tokens, c.pos), 4nat,
{
    lemma_primary_moves(tokens, c);
    let callee = primary(tokens, c);
    match callee.result {
        Ok(e) => {
            lemma_call_rest_moves(tokens, callee.cursor, e);
        },
        Err(_) => {},
    }
}

/// A unary expression reads at least one token, and never moves back.
pub proof fn lemma_unary_moves(tokens: Seq<Token>, c: Cursor)
    requires
        0 <= c.pos <= tokens.len(),
    ensures
        moved(tokens, c, unary(tokens, c)),
    decreases remaining(tokens, c.pos), 5nat,
{
    let kind = kind_at(tokens, c.pos);
    if kind == Kind::Bang || kind == Kind::Minus {
        lemma_unary_moves(tokens, at(c, c.pos + 1));
    } else {
        lemma_call_moves(tokens, c);
    }
}

/// Operators and operands after a left operand never move back.
pub proof fn lemma_binary_rest_moves(tokens: Seq<Token>, c: Cursor, level: nat, left: ExprView)
    requires
        0 <= c.pos <= tokens.len(),
    ensures
        inside(tokens, c, binary_rest(tokens, c, level, left)),
    decreases remaining(tokens, c.pos), 10 + 2 * level,
{
    if is_operator(level, kind_at(tokens, c.pos)) {
        let next = at(c, c.pos + 1);
        if level == 0 {
            lemma_unary_moves(tokens, next);
        } else {
            lemma_binary_moves(tokens, next, (level - 1) as nat);
        }
        let right = if level == 0 {
            unary(tokens, next)
        } else {
            binary(tokens, next, (level - 1) as nat)
        };
        match right.result {
            Ok(e) => {
                lemma_binary_rest_moves(
                    tokens,
                    right.cursor,
                    level,
                    combine(level, left, tokens[c.pos], e),
                );
            },
            Err(_) => {},
        }
    }
}

/// A binary expression of any level reads at least one token, and never
/// moves back.
pub proof fn lemma_binary_moves(tokens: Seq<Token>, c: Cursor, level: nat)
    requires
        0 <= c.pos <= tokens.len(),
    ensures
        moved(tokens, c, binary(tokens, c, level)),
    decreases remaining(tokens, c.pos), 11 + 2 * level,
{
    if level == 0 {
        lemma_unary_moves(tokens, c);
    } else {
        lemma_binary_moves(tokens, c, (level - 1) as nat);
    }
    let left = if level == 0 {
        unary(tokens, c)
    } else {
        binary(tokens, c, (level - 1) as nat)
    };
    match left.result {
        Ok(e) => {
            lemma_binary_rest_moves(tokens, left.cursor, level, e);
        },
        Err(_) => {},
    }
}

/// An assignment reads at least one token, and never moves back.
pub proof fn lemma_assignment_moves(tokens: Seq<Token>, c: Cursor)
    requires
        0 <= c.pos <= tokens.len(),
    ensures
        moved(tokens, c, assignment(tokens, c)),
    decreases remaining(tokens, c.pos), 30nat,
{
    lemma_binary_moves(tokens, c, 5);
    let target = binary(tokens, c, 5);
    if target.result is Ok && kind_at(tokens, target.cursor.pos) == Kind::Equal {
        lemma_assignment_moves(tokens, at(target.cursor, target.cursor.pos + 1));
    }
}

/// A conditional reads at least one token, and never moves back.
pub proof fn lemma_conditional_moves(tokens: Seq<Token>, c: Cursor)
    requires
        0 <= c.pos <= tokens.len(),
    ensures
        moved(tokens, c, conditional(tokens, c)),
    decreases remaining(tokens, c.pos), 31nat,
{
    lemma_assignment_moves(tokens, c);
    let condition = assignment(tokens, c);
    if condition.result is Ok && kind_at(tokens, condition.cursor.pos) == Kind::QuestionMark {
        let next = at(condition.cursor, condition.cursor.pos + 1);
        lemma_expression_moves(tokens, next);
        let left = expression(tokens, next);
        if left.result is Ok && kind_at(tokens, left.cursor.pos) == Kind::Colon {
            lemma_conditional_moves(tokens, at(left.cursor, left.cursor.pos + 1));
        }
    }
}

/// An expression reads at least one token, and never moves back.
pub proof fn lemma_expression_moves(tokens: Seq<Token>, c: Cursor)
    requires
        0 <= c.pos <= tokens.len(),
    ensures
        moved(tokens, c, expression(tokens, c)),
    decreases remaining(tokens, c.pos), 32nat,
{
    lemma_conditional_moves(tokens, c);
}

/// An expression statement reads at least one token, and never moves
/// back.
pub proof fn lemma_expression_statement_moves(tokens: Seq<Token>, c: Cursor)
    requires
        0 <= c.pos <= tokens.len(),
    ensures
        moved(tokens, c, expression_statement(tokens, c)),
    decreases remaining(tokens, c.pos), 33nat,
{
    lemma_expression_moves(tokens, c);
}

/// A print statement never moves back.
pub proof fn lemma_print_statement_moves(tokens: Seq<Token>, c: Cursor)
    requires
        0 <= c.pos <= tokens.len(),
    ensures
        inside(tokens, c, print_statement(tokens, c)),
    decreases remaining(tokens, c.pos), 33nat,
{
    lemma_expression_moves(tokens, c);
}

/// A return statement reads its keyword at least, and never moves back.
pub proof fn lemma_return_statement_moves(tokens: Seq<Token>, c: Cursor)
    requires
        0 <= c.pos < tokens.len(),
    ensures
        moved(tokens, c, return_statement(tokens, c)),
    decreases remaining(tokens, c.pos), 34nat,
{
    lemma_expression_moves(tokens, at(c, c.pos + 1));
}

/// A variable declaration never moves back.
pub proof fn lemma_var_declaration_moves(tokens: Seq<Token>, c: Cursor)
    requires
        0 <= c.pos <= tokens.len(),
    ensures
        inside(tokens, c, var_declaration(tokens, c)),
    decreases remaining(tokens, c.pos), 34nat,
{
    if kind_at(tokens, c.pos) == Kind::Identifier && kind_at(tokens, c.pos + 1) == Kind::Equal {
        lemma_expression_moves(tokens, at(c, c.pos + 2));
    }
}

/// A condition in parentheses never moves back, and where it is parsed it
/// has read a token.
pub proof fn lemma_condition_moves(
    tokens: Seq<Token>,
    c: Cursor,
    opening: Seq<char>,
    closing: Seq<char>,
)
    requires
        0 <= c.pos <= tokens.len(),
    ensures
        inside(tokens, c, condition(tokens, c, opening, closing)),
        condition(tokens, c, opening, closing).result is Ok ==> c.pos < condition(
            tokens,
            c,
            opening,
            closing,
        ).cursor.pos,
    decreases remaining(tokens, c.pos), 34nat,
{
    if kind_at(tokens, c.pos) == Kind::LeftParen {
        lemma_expression_moves(tokens, at(c, c.pos + 1));
    }
}

/// A while statement never moves back.
pub proof fn lemma_while_statement_moves(tokens: Seq<Token>, c: Cursor)
    requires
        0 <= c.pos <= tokens.len(),
    ensures
        inside(tokens, c, while_statement(tokens, c)),
    decreases remaining(tokens, c.pos), 35nat,
{
    let opening = "Expect '(' after 'while'."@;
    let closing = "Expect ')' after condition."@;
    lemma_condition_moves(tokens, c, opening, closing);
    let head = condition(tokens, c, opening, closing);
    if head.result is Ok {
        lemma_statement_moves(tokens, head.cursor);
    }
}

/// An if statement never moves back.
pub proof fn lemma_if_statement_moves(tokens: Seq<Token>, c: Cursor)
    requires
        0 <= c.pos <= tokens.len(),
    ensures
        inside(tokens, c, if_statement(tokens, c)),
    decreases remaining(tokens, c.pos), 35nat,
{
    let opening = "Expect '(' after if."@;
    let closing = "Expect ')' after if condition."@;
    lemma_condition_moves(tokens, c, opening, closing);
    let head = condition(tokens, c, opening, closing);
    if head.result is Ok {
        lemma_statement_moves(tokens, head.cursor);
        let then_branch = statement(tokens, head.cursor);
        if then_branch.result is Ok && kind_at(tokens, then_branch.cursor.pos) == Kind::Else {
            lemma_statement_moves(tokens, at(then_branch.cursor, then_branch.cursor.pos + 1));
        }
    }
}

/// The initializer clause of a `for` never moves back.
pub proof fn lemma_for_initializer_moves(tokens: Seq<Token>, c: Cursor)
    requires
        0 <= c.pos <= tokens.len(),
    ensures
        inside(tokens, c, for_initializer(tokens, c)),
    decreases remaining(tokens, c.pos), 35nat,
{
    let kind = kind_at(tokens, c.pos);
    if kind == Kind::Var {
        lemma_var_declaration_moves(tokens, at(c, c.pos + 1));
    } else if kind != Kind::Semicolon {
        lemma_expression_statement_moves(tokens, c);
    }
}

/// A clause of a `for` never moves back.
pub proof fn lemma_for_clause_moves(tokens: Seq<Token>, c: Cursor, stop: Kind, message: Seq<char>)
    requires
        0 <= c.pos <= tokens.len(),
    ensures
        inside(tokens, c, for_clause(tokens, c, stop, message)),
    decreases remaining(tokens, c.pos), 35nat,
{
    if kind_at(tokens, c.pos) != stop {
        lemma_expression_moves(tokens, c);
    }
}

/// A for statement never moves back.
pub proof fn lemma_for_statement_moves(tokens: Seq<Token>, c: Cursor)
    requires
        0 <= c.pos <= tokens.len(),
    ensures
        inside(tokens, c, for_statement(tokens, c)),
    decreases remaining(tokens, c.pos), 36nat,
{
    if kind_at(tokens, c.pos) == Kind::LeftParen {
        let start = at(c, c.pos + 1);
        lemma_for_initializer_moves(tokens, start);
        let initializer = for_initializer(tokens, start);
        if initializer.result is Ok {
            let first = "Expect ';' after loop condition."@;
            lemma_for_clause_moves(tokens, initializer.cursor, Kind::Semicolon, first);
            let condition = for_clause(tokens, initializer.cursor, Kind::Semicolon, first);
            if condition.result is Ok {
                let second = "Expect ')' after for clauses."@;
                lemma_for_clause_moves(tokens, condition.cursor, Kind::RightParen, second);
                let increment = for_clause(tokens, condition.cursor, Kind::RightParen, second);
                if increment.result is Ok {
                    lemma_statement_moves(tokens, increment.cursor);
                }
            }
        }
    }
}

/// The rest of a block never moves back.
pub proof fn lemma_block_rest_moves(tokens: Seq<Token>, c: Cursor, so_far: Seq<StmtView>)
    requires
        0 <= c.pos <= tokens.len(),
    ensures
        inside(tokens, c, block_rest(tokens, c, so_far)),
    decreases remaining(tokens, c.pos), 42nat,
{
    let kind = kind_at(tokens, c.pos);
    if kind != Kind::RightBrace && kind != Kind::Eof {
        lemma_declaration_moves(tokens, c);
        let next = declaration(tokens, c);
        match next.result {
            Ok(s) => {
                lemma_block_rest_moves(tokens, next.cursor, so_far.push(s));
            },
            Err(_) => {},
        }
    }
}

/// A block never moves back.
pub proof fn lemma_block_moves(tokens: Seq<Token>, c: Cursor)
    requires
        0 <= c.pos <= tokens.len(),
    ensures
        inside(tokens, c, block(tokens, c)),
    decreases remaining(tokens, c.pos), 43nat,
{
    lemma_block_rest_moves(tokens, c, Seq::empty());
}

/// A statement reads at least one token, and never moves back.
pub proof fn lemma_statement_moves(tokens: Seq<Token>, c: Cursor)
    requires
        0 <= c.pos <= tokens.len(),
    ensures
        moved(tokens, c, statement(tokens, c)),
    decreases remaining(tokens, c.pos), 40nat,
{
    let kind = kind_at(tokens, c.pos);
    let next = at(c, c.pos + 1);
    if kind == Kind::If {
        lemma_if_statement_moves(tokens, next);
    } else if kind == Kind::Print {
        lemma_print_statement_moves(tokens, next);
    } else if kind == Kind::Return {
        lemma_return_statement_moves(tokens, c);
    } else if kind == Kind::While {
        lemma_while_statement_moves(tokens, next);
    } else if kind == Kind::For {
        lemma_for_statement_moves(tokens, next);
    } else if kind == Kind::LeftBrace {
        lemma_block_moves(tokens, next);
    } else {
        lemma_expression_statement_moves(tokens, c);
    }
}

/// Parameters never move back.
pub proof fn lemma_parameters_move(tokens: Seq<Token>, c: Cursor, so_far: Seq<Token>)
    requires
        0 <= c.pos <= tokens.len(),
    ensures
        inside(tokens, c, parameters(tokens, c, so_far)),
    decreases remaining(tokens, c.pos),
{
    if kind_at(tokens, c.pos) == Kind::Identifier && kind_at(tokens, c.pos + 1) == Kind::Comma {
        let told = if so_far.len() >= 255 {
            report(tokens, c, c.pos, "Can't have more than 255 parameters."@)
        } else {
            c
        };
        lemma_parameters_move(tokens, at(told, c.pos + 2), so_far.push(tokens[c.pos]));
    }
}

/// A function never moves back, and where it is parsed it has read a
/// token.
pub proof fn lemma_function_moves(tokens: Seq<Token>, c: Cursor, what: Seq<char>)
    requires
        0 <= c.pos <= tokens.len(),
    ensures
        inside(tokens, c, function(tokens, c, what)),
        function(tokens, c, what).result is Ok ==> c.pos < function(tokens, c, what).cursor.pos,
    decreases remaining(tokens, c.pos), 44nat,
{
    if kind_at(tokens, c.pos) == Kind::Identifier && kind_at(tokens, c.pos + 1)
        == Kind::LeftParen {
        if kind_at(tokens, c.pos + 2) != Kind::RightParen {
            lemma_parameters_move(tokens, at(c, c.pos + 2), Seq::empty());
        }
        let list = if kind_at(tokens, c.pos + 2) != Kind::RightParen {
            parameters(tokens, at(c, c.pos + 2), Seq::empty())
        } else {
            done(Seq::empty(), at(c, c.pos + 2))
        };
        if list.result is Ok && kind_at(tokens, list.cursor.pos) == Kind::RightParen && kind_at(
            tokens,
            list.cursor.pos + 1,
        ) == Kind::LeftBrace {
            lemma_block_moves(tokens, at(list.cursor, list.cursor.pos + 2));
        }
    }
}

/// The methods of a class never move back.
pub proof fn lemma_methods_rest_moves(tokens: Seq<Token>, c: Cursor, so_far: Seq<DeclarationView>)
    requires
        0 <= c.pos <= tokens.len(),
    ensures
        inside(tokens, c, methods_rest(tokens, c, so_far)),
    decreases remaining(tokens, c.pos), 45nat,
{
    let kind = kind_at(tokens, c.pos);
    if kind != Kind::RightBrace && kind != Kind::Eof {
        lemma_function_moves(tokens, c, "method"@);
        let method = function(tokens, c, "method"@);
        match method.result {
            Ok(m) => {
                lemma_methods_rest_moves(tokens, method.cursor, so_far.push(m));
            },
            Err(_) => {},
        }
    }
}

/// A class declaration never moves back.
pub proof fn lemma_class_declaration_moves(tokens: Seq<Token>, c: Cursor)
    requires
        0 <= c.pos <= tokens.len(),
    ensures
        inside(tokens, c, class_declaration(tokens, c)),
    decreases remaining(tokens, c.pos), 46nat,
{
    if kind_at(tokens, c.pos) == Kind::Identifier {
        let brace = if kind_at(tokens, c.pos + 1) == Kind::Less {
            c.pos + 3
        } else {
            c.pos + 1
        };
        if !(kind_at(tokens, c.pos + 1) == Kind::Less && kind_at(tokens, c.pos + 2)
            != Kind::Identifier) && kind_at(tokens, brace) == Kind::LeftBrace {
            lemma_methods_rest_moves(tokens, at(c, brace + 1), Seq::empty());
        }
    }
}

/// A declaration reads at least one token, and never moves back.
pub proof fn lemma_declaration_moves(tokens: Seq<Token>, c: Cursor)
    requires
        0 <= c.pos <= tokens.len(),
    ensures
        moved(tokens, c, declaration(tokens, c)),
    decreases remaining(tokens, c.pos), 41nat,
{
    let kind = kind_at(tokens, c.pos);
    let next = at(c, c.pos + 1);
    if kind == Kind::Var {
        lemma_var_declaration_moves(tokens, next);
    } else if kind == Kind::Fun {
        lemma_function_moves(tokens, next, "function"@);
    } else if kind == Kind::Class {
        lemma_class_declaration_moves(tokens, next);
    } else {
        lemma_statement_moves(tokens, c);
    }
}

/// Parsing resumes at or after where the error was, inside the tokens, at
/// `Eof` or at a token that may start a statement.
pub proof fn lemma_synchronize_moves(tokens: Seq<Token>, pos: int)
    requires
        0 <= pos <= tokens.len(),
    ensures
        pos <= synchronize(tokens, pos) <= tokens.len(),
        kind_at(tokens, synchronize(tokens, pos)) == Kind::Eof || starts_statement(
            kind_at(tokens, synchronize(tokens, pos)),
        ),
    decreases remaining(tokens, pos),
{
    let kind = kind_at(tokens, pos);
    if !(kind == Kind::Eof || starts_statement(kind) || pos >= tokens.len()) {
        lemma_synchronize_moves(tokens, pos + 1);
    }
}

/// The statements parsed before are the first of the statements in the
/// end, in the same order: parsing only adds statements.
pub proof fn lemma_program_keeps_statements(tokens: Seq<Token>, c: Cursor, so_far: Seq<StmtView>)
    requires
        0 <= c.pos <= tokens.len(),
    ensures
        program(tokens, c, so_far).0.len() >= so_far.len(),
        program(tokens, c, so_far).0.subrange(0, so_far.len() as int) == so_far,
    decreases remaining(tokens, c.pos),
{
    let all = program(tokens, c, so_far);
    if kind_at(tokens, c.pos) == Kind::Eof {
        assert(all.0.subrange(0, so_far.len() as int) =~= so_far);
    } else {
        lemma_declaration_moves(tokens, c);
        let next = declaration(tokens, c);
        match next.result {
            Ok(s) => {
                lemma_program_keeps_statements(tokens, next.cursor, so_far.push(s));
                let more = so_far.push(s);
                assert(all.0.subrange(0, so_far.len() as int) =~= so_far) by {
                    assert forall|i: int| 0 <= i < so_far.len() implies all.0[i] == so_far[i] by {
                        assert(all.0.subrange(0, more.len() as int)[i] == all.0[i]);
                    }
                }
            },
            Err(cause) => {
                lemma_synchronize_moves(tokens, next.cursor.pos);
                let resume = synchronize(tokens, next.cursor.pos);
                lemma_program_keeps_statements(
                    tokens,
                    Cursor { pos: resume, reported: next.cursor.reported.push(cause) },
                    so_far,
                );
            },
        }
    }
}

} // verus!
