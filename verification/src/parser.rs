//! The parser: tokens to statements, by recursive descent.
//!
//! Each production here parses exactly what the production of the same name
//! in [`crate::grammar`] says, and leaves the parser where that says.

use crate::expr::{
    exprs_view, lemma_exprs_view_index, lemma_exprs_view_push, AssignExpr, BinaryExpr, CallExpr,
    ConditionalExpr, Expr, ExprView, GetExpr, GroupingExpr, Literal, LogicalExpr, SetExpr,
    SuperExpr, ThisExpr, UnaryExpr, VariableExpr,
};
use crate::grammar::{
    after, arguments, assignment, binary, binary_rest, block, block_rest, call, call_rest,
    cause_at, class_declaration, condition, conditional, declaration, desugar, expression,
    expression_statement, finish_call, for_clause, for_initializer, for_statement, function,
    if_statement, is_operator, kind_at, methods_rest, parameters, parse, primary,
    print_statement, program, report, return_statement, statement, synchronize, unary,
    var_declaration, while_statement, Cursor, Parsed,
};
use crate::lox_result::{causes_view, CauseView, LoxResult, Outcome, ParseErrorCause};
use crate::stmt::{
    declarations_view, lemma_declarations_view_push, lemma_stmts_view_push, optional_view,
    stmts_view, BlockStmt, ClassStmt, DeclarationView, ExpressionStmt, FunctionStmt, IfStmt,
    PrintStmt, ReturnStmt, Stmt, StmtView, VarStmt, WhileStmt,
};
use crate::text::{push_str, text_of};
use crate::token::{Kind, Token, TokenType};
use std::rc::Rc;
use vstd::prelude::*;

verus! {

/// A recursive descent parser over one token list.
pub struct Parser<'a> {
    tokens: &'a [Token],
    pos: usize,
    errors: Vec<ParseErrorCause>,
}

/// An expression or the cause of a failure, as a plain tree.
pub open spec fn expr_result(r: Result<Expr, ParseErrorCause>) -> Result<ExprView, CauseView> {
    match r {
        Ok(e) => Ok(e@),
        Err(cause) => Err(cause@),
    }
}

/// A statement or the cause of a failure, as a plain tree.
pub open spec fn stmt_result(r: Result<Stmt, ParseErrorCause>) -> Result<StmtView, CauseView> {
    match r {
        Ok(s) => Ok(s@),
        Err(cause) => Err(cause@),
    }
}

/// Statements or the cause of a failure, as plain trees.
pub open spec fn stmts_result(r: Result<Vec<Stmt>, ParseErrorCause>) -> Result<
    Seq<StmtView>,
    CauseView,
> {
    match r {
        Ok(s) => Ok(stmts_view(s@)),
        Err(cause) => Err(cause@),
    }
}

/// Expressions or the cause of a failure, as plain trees.
pub open spec fn exprs_result(r: Result<Vec<Expr>, ParseErrorCause>) -> Result<
    Seq<ExprView>,
    CauseView,
> {
    match r {
        Ok(e) => Ok(exprs_view(e@)),
        Err(cause) => Err(cause@),
    }
}

/// A function declaration or the cause of a failure, as a plain tree.
pub open spec fn declaration_result(r: Result<FunctionStmt, ParseErrorCause>) -> Result<
    DeclarationView,
    CauseView,
> {
    match r {
        Ok(d) => Ok(d@),
        Err(cause) => Err(cause@),
    }
}

impl<'a> Parser<'a> {
    /// The tokens that the parser reads.
    pub closed spec fn tokens(&self) -> Seq<Token> {
        self.tokens@
    }

    /// Where the parser stands.
    pub closed spec fn cursor(&self) -> Cursor {
        Cursor { pos: self.pos as int, reported: causes_view(self.errors@) }
    }

    /// A parser stands at a token or right after the last one.
    pub closed spec fn well_formed(&self) -> bool {
        self.pos <= self.tokens@.len()
    }

    /// Whether this parser is what `before` is after some productions: it
    /// reads the same tokens and has not moved back.
    pub closed spec fn follows(&self, before: &Parser<'a>) -> bool {
        &&& self.tokens@ == before.tokens@
        &&& before.pos <= self.pos <= self.tokens@.len()
    }

    /// Whether this parser has read at least one token since `before`, if
    /// `before` had one to read.
    pub closed spec fn advanced(&self, before: &Parser<'a>) -> bool {
        before.pos < before.tokens@.len() ==> before.pos < self.pos
    }

    /// A parser at the first of `tokens`, with nothing reported.
    pub fn new(tokens: &'a [Token]) -> (parser: Parser<'a>)
        ensures
            parser.well_formed(),
            parser.tokens() == tokens@,
            parser.cursor() == (Cursor { pos: 0, reported: Seq::empty() }),
    {
        let parser = Parser { tokens, pos: 0, errors: Vec::new() };
        assert(parser.cursor().reported =~= Seq::empty());
        parser
    }

    /// A parser at the token at `position` of `tokens`, or after the last
    /// token where there is no such token, with nothing reported. Parsing a
    /// list that grows from where it ended before gives every expression of
    /// a session an id of its own.
    pub fn starting_at(tokens: &'a [Token], position: usize) -> (parser: Parser<'a>)
        ensures
            parser.well_formed(),
            parser.tokens() == tokens@,
            parser.cursor() == (Cursor {
                pos: if position <= tokens@.len() {
                    position as int
                } else {
                    tokens@.len() as int
                },
                reported: Seq::empty(),
            }),
    {
        let pos = if position <= tokens.len() {
            position
        } else {
            tokens.len()
        };
        let parser = Parser { tokens, pos, errors: Vec::new() };
        assert(parser.cursor().reported =~= Seq::empty());
        parser
    }

    /// The kind of the token `ahead` tokens after the current one.
    fn kind_ahead(&self, ahead: usize) -> (kind: Kind)
        requires
            self.well_formed(),
        ensures
            kind == kind_at(self.tokens@, self.pos + ahead),
    {
        if ahead < self.tokens.len() - self.pos {
            self.tokens[self.pos + ahead].kind()
        } else {
            Kind::Eof
        }
    }

    /// The kind of the current token.
    fn kind(&self) -> (kind: Kind)
        requires
            self.well_formed(),
        ensures
            kind == kind_at(self.tokens@, self.pos as int),
            kind != Kind::Eof ==> self.pos < self.tokens@.len(),
    {
        self.kind_ahead(0)
    }

    /// Moves `by` tokens on, which are there to be read.
    fn skip(&mut self, by: usize)
        requires
            old(self).pos + by <= old(self).tokens@.len(),
        ensures
            final(self).tokens == old(self).tokens,
            final(self).errors == old(self).errors,
            final(self).pos == old(self).pos + by,
    {
        let end = self.tokens.len();
        assert(self.pos + by <= end);
        self.pos = self.pos + by;
    }

    /// An error cause with `message` at the token `ahead` tokens after the
    /// current one.
    fn cause_ahead(&self, ahead: usize, message: &str) -> (cause: ParseErrorCause)
        requires
            self.well_formed(),
        ensures
            cause@ == cause_at(self.tokens@, self.pos + ahead, message@),
    {
        if ahead < self.tokens.len() - self.pos {
            let token = &self.tokens[self.pos + ahead];
            ParseErrorCause::new(token.line, Some(token.lexeme.clone()), message)
        } else if self.tokens.len() > 0 {
            ParseErrorCause::new(
                self.tokens[self.tokens.len() - 1].line,
                Some(String::new()),
                message,
            )
        } else {
            ParseErrorCause::new(1, Some(String::new()), message)
        }
    }

    /// An error cause with `message` at the current token.
    fn cause(&self, message: &str) -> (cause: ParseErrorCause)
        requires
            self.well_formed(),
        ensures
            cause@ == cause_at(self.tokens@, self.pos as int, message@),
    {
        self.cause_ahead(0, message)
    }

    /// Reports `message` at the current token; parsing goes on.
    fn report(&mut self, message: &str)
        requires
            old(self).well_formed(),
        ensures
            final(self).tokens == old(self).tokens,
            final(self).pos == old(self).pos,
            final(self).cursor() == report(
                old(self).tokens@,
                old(self).cursor(),
                old(self).pos as int,
                message@,
            ),
    {
        let cause = self.cause(message);
        self.errors.push(cause);
        assert(causes_view(self.errors@) =~= causes_view(old(self).errors@).push(cause@));
    }

    /// Reads the current token and the identifier after it, and gives the
    /// identifier. Where no identifier follows, reads the current token only
    /// and fails with `message` at what follows.
    fn named(&mut self, message: &str) -> (r: Result<Token, ParseErrorCause>)
        requires
            old(self).well_formed(),
            old(self).pos < old(self).tokens@.len(),
        ensures
            final(self).tokens == old(self).tokens,
            final(self).errors == old(self).errors,
            final(self).well_formed(),
            match r {
                Ok(name) => kind_at(old(self).tokens@, old(self).pos + 1) == Kind::Identifier
                    && final(self).pos == old(self).pos + 2
                    && name == old(self).tokens@[old(self).pos + 1],
                Err(cause) => kind_at(old(self).tokens@, old(self).pos + 1) != Kind::Identifier
                    && final(self).pos == old(self).pos + 1 && cause@ == cause_at(
                    old(self).tokens@,
                    old(self).pos + 1,
                    message@,
                ),
            },
    {
        let end = self.tokens.len();
        if self.kind_ahead(1) == Kind::Identifier {
            assert(self.pos + 1 < end);
            let name = self.tokens[self.pos + 1].clone();
            self.skip(2);
            Ok(name)
        } else {
            self.skip(1);
            Err(self.cause(message))
        }
    }

    /// primary → literal | "this" | IDENT | "(" expression ")" | "super" "." IDENT
    fn primary(&mut self) -> (r: Result<Expr, ParseErrorCause>)
        requires
            old(self).well_formed(),
        ensures
            final(self).follows(old(self)),
            final(self).advanced(old(self)),
            (Parsed { result: expr_result(r), cursor: final(self).cursor() }) == primary(
                old(self).tokens@,
                old(self).cursor(),
            ),
        decreases old(self).tokens@.len() - old(self).pos, 1nat,
    {
        let kind = self.kind();
        let start = self.pos;
        if kind == Kind::True {
            self.skip(1);
            Ok(Expr::Literal(Literal::Boolean(true)))
        } else if kind == Kind::False {
            self.skip(1);
            Ok(Expr::Literal(Literal::Boolean(false)))
        } else if kind == Kind::Nil {
            self.skip(1);
            Ok(Expr::Literal(Literal::Nil))
        } else if kind == Kind::String || kind == Kind::Number {
            let value = match &self.tokens[start].token_type {
                TokenType::String(s) => Literal::String(s.clone()),
                TokenType::Number(n) => Literal::Number(*n),
                _ => Literal::Nil,
            };
            self.skip(1);
            Ok(Expr::Literal(value))
        } else if kind == Kind::This {
            let keyword = self.tokens[start].clone();
            self.skip(1);
            Ok(Expr::This(Box::new(ThisExpr::new(start, keyword))))
        } else if kind == Kind::Identifier {
            let name = self.tokens[start].clone();
            self.skip(1);
            Ok(Expr::Variable(Box::new(VariableExpr::new(start, name))))
        } else if kind == Kind::Super {
            let keyword = self.tokens[start].clone();
            self.skip(1);
            if self.kind() != Kind::Dot {
                return Err(self.cause("Expect '.' after 'super'."));
            }
            if self.kind_ahead(1) != Kind::Identifier {
                self.skip(1);
                return Err(self.cause("Expect superclass method name."));
            }
            let method = self.tokens[start + 2].clone();
            self.skip(2);
            Ok(Expr::Super(Box::new(SuperExpr::new(start, keyword, method))))
        } else if kind == Kind::LeftParen {
            self.skip(1);
            match self.expression() {
                Ok(e) => {
                    if self.kind() == Kind::RightParen {
                        self.skip(1);
                        Ok(Expr::Grouping(Box::new(GroupingExpr::new(e))))
                    } else {
                        Err(self.cause("Expect ')' after expression"))
                    }
                },
                Err(cause) => Err(cause),
            }
        } else {
            let cause = self.cause("Expect expression.");
            if start < self.tokens.len() {
                self.skip(1);
            }
            Err(cause)
        }
    }

    /// arguments → expression ( "," expression )*, after the arguments in
    /// `list`.
    fn arguments(&mut self, list: Vec<Expr>) -> (r: Result<Vec<Expr>, ParseErrorCause>)
        requires
            old(self).well_formed(),
        ensures
            final(self).follows(old(self)),
            (Parsed { result: exprs_result(r), cursor: final(self).cursor() }) == arguments(
                old(self).tokens@,
                old(self).cursor(),
                exprs_view(list@),
            ),
        decreases old(self).tokens@.len() - old(self).pos, 50nat,
    {
        proof {
            lemma_exprs_view_index(list@);
        }
        let mut list = list;
        if list.len() >= 255 {
            self.report("Can't have more than 255 arguments.");
        }
        match self.expression() {
            Ok(e) => {
                proof {
                    lemma_exprs_view_push(list@, e);
                }
                list.push(e);
                if self.kind() == Kind::Comma {
                    self.skip(1);
                    self.arguments(list)
                } else {
                    Ok(list)
                }
            },
            Err(cause) => Err(cause),
        }
    }

    /// The rest of a call after its "(".
    fn finish_call(&mut self, callee: Expr) -> (r: Result<Expr, ParseErrorCause>)
        requires
            old(self).well_formed(),
        ensures
            final(self).follows(old(self)),
            (Parsed { result: expr_result(r), cursor: final(self).cursor() }) == finish_call(
                old(self).tokens@,
                old(self).cursor(),
                callee@,
            ),
        decreases old(self).tokens@.len() - old(self).pos, 51nat,
    {
        let list: Vec<Expr> = Vec::new();
        assert(exprs_view(list@) =~= Seq::empty());
        let list = if self.kind() != Kind::RightParen {
            match self.arguments(list) {
                Ok(list) => list,
                Err(cause) => {
                    return Err(cause);
                },
            }
        } else {
            list
        };
        if self.kind() == Kind::RightParen {
            let paren = self.tokens[self.pos].clone();
            self.skip(1);
            let made = CallExpr::new(callee, paren, list);
            Ok(Expr::Call(Box::new(made)))
        } else {
            Err(self.cause("Expect ')' after arguments."))
        }
    }

    /// ( "(" arguments? ")" | "." IDENT )*, after the callee.
    fn call_rest(&mut self, callee: Expr) -> (r: Result<Expr, ParseErrorCause>)
        requires
            old(self).well_formed(),
        ensures
            final(self).follows(old(self)),
            (Parsed { result: expr_result(r), cursor: final(self).cursor() }) == call_rest(
                old(self).tokens@,
                old(self).cursor(),
                callee@,
            ),
        decreases old(self).tokens@.len() - old(self).pos, 3nat,
    {
        let kind = self.kind();
        if kind == Kind::LeftParen {
            self.skip(1);
            match self.finish_call(callee) {
                Ok(e) => self.call_rest(e),
                Err(cause) => Err(cause),
            }
        } else if kind == Kind::Dot {
            match self.named("Expect property name after '.'.") {
                Ok(name) => self.call_rest(Expr::Get(Box::new(GetExpr::new(name, callee)))),
                Err(cause) => Err(cause),
            }
        } else {
            Ok(callee)
        }
    }

    /// call → primary ( "(" arguments? ")" | "." IDENT )*
    fn call(&mut self) -> (r: Result<Expr, ParseErrorCause>)
        requires
            old(self).well_formed(),
        ensures
            final(self).follows(old(self)),
            final(self).advanced(old(self)),
            (Parsed { result: expr_result(r), cursor: final(self).cursor() }) == call(
                old(self).tokens@,
                old(self).cursor(),
            ),
        decreases old(self).tokens@.len() - old(self).pos, 4nat,
    {
        match self.primary() {
            Ok(e) => self.call_rest(e),
            Err(cause) => Err(cause),
        }
    }

    /// unary → ( "!" | "-" ) unary | call
    fn unary(&mut self) -> (r: Result<Expr, ParseErrorCause>)
        requires
            old(self).well_formed(),
        ensures
            final(self).follows(old(self)),
            final(self).advanced(old(self)),
            (Parsed { result: expr_result(r), cursor: final(self).cursor() }) == unary(
                old(self).tokens@,
                old(self).cursor(),
            ),
        decreases old(self).tokens@.len() - old(self).pos, 5nat,
    {
        let kind = self.kind();
        if kind == Kind::Bang || kind == Kind::Minus {
            let operator = self.tokens[self.pos].clone();
            self.skip(1);
            match self.unary() {
                Ok(right) => Ok(Expr::Unary(Box::new(UnaryExpr::new(operator, right)))),
                Err(cause) => Err(cause),
            }
        } else {
            self.call()
        }
    }

    /// An operand of the binary level `level`.
    fn operand(&mut self, level: u8) -> (r: Result<Expr, ParseErrorCause>)
        requires
            old(self).well_formed(),
        ensures
            final(self).follows(old(self)),
            final(self).advanced(old(self)),
            (Parsed { result: expr_result(r), cursor: final(self).cursor() }) == (if level == 0 {
                unary(old(self).tokens@, old(self).cursor())
            } else {
                binary(old(self).tokens@, old(self).cursor(), (level - 1) as nat)
            }),
        decreases old(self).tokens@.len() - old(self).pos, 10 + 2 * level,
    {
        if level == 0 {
            self.unary()
        } else {
            self.binary(level - 1)
        }
    }

    /// ( operator operand )*, after the left operand, for the operators of
    /// `level`.
    fn binary_rest(&mut self, level: u8, left: Expr) -> (r: Result<Expr, ParseErrorCause>)
        requires
            old(self).well_formed(),
        ensures
            final(self).follows(old(self)),
            (Parsed { result: expr_result(r), cursor: final(self).cursor() }) == binary_rest(
                old(self).tokens@,
                old(self).cursor(),
                level as nat,
                left@,
            ),
        decreases old(self).tokens@.len() - old(self).pos, 10 + 2 * level,
    {
        if !operates(level, self.kind()) {
            return Ok(left);
        }
        let operator = self.tokens[self.pos].clone();
        self.skip(1);
        match self.operand(level) {
            Ok(right) => {
                let joined = if level >= 4 {
                    Expr::Logical(Box::new(LogicalExpr::new(left, operator, right)))
                } else {
                    Expr::Binary(Box::new(BinaryExpr::new(left, operator, right)))
                };
                self.binary_rest(level, joined)
            },
            Err(cause) => Err(cause),
        }
    }

    /// operand ( operator operand )* for the operators of `level`.
    fn binary(&mut self, level: u8) -> (r: Result<Expr, ParseErrorCause>)
        requires
            old(self).well_formed(),
        ensures
            final(self).follows(old(self)),
            final(self).advanced(old(self)),
            (Parsed { result: expr_result(r), cursor: final(self).cursor() }) == binary(
                old(self).tokens@,
                old(self).cursor(),
                level as nat,
            ),
        decreases old(self).tokens@.len() - old(self).pos, 11 + 2 * level,
    {
        match self.operand(level) {
            Ok(e) => self.binary_rest(level, e),
            Err(cause) => Err(cause),
        }
    }

    /// logic_or → logic_and ( "or" logic_and )*
    fn logic_or(&mut self) -> (r: Result<Expr, ParseErrorCause>)
        requires
            old(self).well_formed(),
        ensures
            final(self).follows(old(self)),
            final(self).advanced(old(self)),
            (Parsed { result: expr_result(r), cursor: final(self).cursor() }) == binary(
                old(self).tokens@,
                old(self).cursor(),
                5,
            ),
        decreases old(self).tokens@.len() - old(self).pos, 22nat,
    {
        self.binary(5)
    }

    /// assignment → ( call "." )? IDENT "=" assignment | logic_or
    fn assignment(&mut self) -> (r: Result<Expr, ParseErrorCause>)
        requires
            old(self).well_formed(),
        ensures
            final(self).follows(old(self)),
            final(self).advanced(old(self)),
            (Parsed { result: expr_result(r), cursor: final(self).cursor() }) == assignment(
                old(self).tokens@,
                old(self).cursor(),
            ),
        decreases old(self).tokens@.len() - old(self).pos, 30nat,
    {
        let target = match self.logic_or() {
            Ok(e) => e,
            Err(cause) => {
                return Err(cause);
            },
        };
        if self.kind() != Kind::Equal {
            return Ok(target);
        }
        let equals = self.cause("Invalid assignment target.");
        self.skip(1);
        let value = match self.assignment() {
            Ok(v) => v,
            Err(cause) => {
                return Err(cause);
            },
        };
        match target {
            Expr::Variable(v) => {
                let VariableExpr { id, name } = *v;
                Ok(Expr::Assign(Box::new(AssignExpr::new(id, name, value))))
            },
            Expr::Get(g) => {
                let GetExpr { object, name } = *g;
                Ok(Expr::SetField(Box::new(SetExpr::new(object, name, value))))
            },
            other => {
                let ghost before = causes_view(self.errors@);
                self.errors.push(equals);
                assert(causes_view(self.errors@) =~= before.push(equals@));
                Ok(other)
            },
        }
    }

    /// conditional → assignment ( "?" expression ":" conditional )?
    fn conditional(&mut self) -> (r: Result<Expr, ParseErrorCause>)
        requires
            old(self).well_formed(),
        ensures
            final(self).follows(old(self)),
            final(self).advanced(old(self)),
            (Parsed { result: expr_result(r), cursor: final(self).cursor() }) == conditional(
                old(self).tokens@,
                old(self).cursor(),
            ),
        decreases old(self).tokens@.len() - old(self).pos, 31nat,
    {
        let condition = match self.assignment() {
            Ok(e) => e,
            Err(cause) => {
                return Err(cause);
            },
        };
        if self.kind() != Kind::QuestionMark {
            return Ok(condition);
        }
        self.skip(1);
        let left = match self.expression() {
            Ok(e) => e,
            Err(cause) => {
                return Err(cause);
            },
        };
        if self.kind() != Kind::Colon {
            return Err(self.cause("Expect ':' after truthy expression"));
        }
        self.skip(1);
        match self.conditional() {
            Ok(right) => Ok(
                Expr::Conditional(Box::new(ConditionalExpr::new(condition, left, right))),
            ),
            Err(cause) => Err(cause),
        }
    }

    /// expression → conditional
    fn expression(&mut self) -> (r: Result<Expr, ParseErrorCause>)
        requires
            old(self).well_formed(),
        ensures
            final(self).follows(old(self)),
            final(self).advanced(old(self)),
            (Parsed { result: expr_result(r), cursor: final(self).cursor() }) == expression(
                old(self).tokens@,
                old(self).cursor(),
            ),
        decreases old(self).tokens@.len() - old(self).pos, 32nat,
    {
        self.conditional()
    }

    /// Reads the current token if it is of kind `kind`; fails with `message`
    /// at it if not.
    fn expect(&mut self, kind: Kind, message: &str) -> (r: Result<(), ParseErrorCause>)
        requires
            old(self).well_formed(),
            kind != Kind::Eof,
        ensures
            final(self).tokens == old(self).tokens,
            final(self).errors == old(self).errors,
            final(self).well_formed(),
            match r {
                Ok(_) => kind_at(old(self).tokens@, old(self).pos as int) == kind && final(self).pos
                    == old(self).pos + 1,
                Err(cause) => kind_at(old(self).tokens@, old(self).pos as int) != kind
                    && final(self).pos == old(self).pos && cause@ == cause_at(
                    old(self).tokens@,
                    old(self).pos as int,
                    message@,
                ),
            },
    {
        if self.kind() == kind {
            self.skip(1);
            Ok(())
        } else {
            Err(self.cause(message))
        }
    }

    /// Reads the current token if it is an identifier, and gives it; fails
    /// with the message `before what after` at it if not.
    fn identifier(&mut self, before: &str, what: &str, after: &str) -> (r: Result<
        Token,
        ParseErrorCause,
    >)
        requires
            old(self).well_formed(),
        ensures
            final(self).tokens == old(self).tokens,
            final(self).errors == old(self).errors,
            final(self).well_formed(),
            match r {
                Ok(name) => kind_at(old(self).tokens@, old(self).pos as int) == Kind::Identifier
                    && final(self).pos == old(self).pos + 1
                    && name == old(self).tokens@[old(self).pos as int],
                Err(cause) => kind_at(old(self).tokens@, old(self).pos as int) != Kind::Identifier
                    && final(self).pos == old(self).pos && cause@ == cause_at(
                    old(self).tokens@,
                    old(self).pos as int,
                    before@ + what@ + after@,
                ),
            },
    {
        if self.kind() == Kind::Identifier {
            let name = self.tokens[self.pos].clone();
            self.skip(1);
            Ok(name)
        } else {
            Err(self.joined_cause(before, what, after))
        }
    }

    /// An error cause at the current token with the message
    /// `before what after`.
    fn joined_cause(&self, before: &str, what: &str, after: &str) -> (cause: ParseErrorCause)
        requires
            self.well_formed(),
        ensures
            cause@ == cause_at(self.tokens@, self.pos as int, before@ + what@ + after@),
    {
        let mut message: Vec<char> = Vec::new();
        push_str(&mut message, before);
        push_str(&mut message, what);
        push_str(&mut message, after);
        assert(message@ =~= before@ + what@ + after@);
        let text = text_of(&message);
        self.cause(text.as_str())
    }

    /// exprStmt → expression ";"
    fn expression_statement(&mut self) -> (r: Result<Stmt, ParseErrorCause>)
        requires
            old(self).well_formed(),
        ensures
            final(self).follows(old(self)),
            final(self).advanced(old(self)),
            (Parsed { result: stmt_result(r), cursor: final(self).cursor() })
                == expression_statement(old(self).tokens@, old(self).cursor()),
        decreases old(self).tokens@.len() - old(self).pos, 33nat,
    {
        match self.expression() {
            Ok(e) => match self.expect(Kind::Semicolon, "Expect ';' after expression.") {
                Ok(_) => Ok(Stmt::Expression(Box::new(ExpressionStmt::new(e)))),
                Err(cause) => Err(cause),
            },
            Err(cause) => Err(cause),
        }
    }

    /// printStmt → "print" expression ";", after the "print".
    fn print_statement(&mut self) -> (r: Result<Stmt, ParseErrorCause>)
        requires
            old(self).well_formed(),
        ensures
            final(self).follows(old(self)),
            (Parsed { result: stmt_result(r), cursor: final(self).cursor() }) == print_statement(
                old(self).tokens@,
                old(self).cursor(),
            ),
        decreases old(self).tokens@.len() - old(self).pos, 33nat,
    {
        match self.expression() {
            Ok(e) => match self.expect(Kind::Semicolon, "Expect ';' after expression") {
                Ok(_) => Ok(Stmt::Print(Box::new(PrintStmt::new(e)))),
                Err(cause) => Err(cause),
            },
            Err(cause) => Err(cause),
        }
    }

    /// returnStmt → "return" expression? ";", at the "return".
    fn return_statement(&mut self) -> (r: Result<Stmt, ParseErrorCause>)
        requires
            old(self).well_formed(),
            old(self).pos < old(self).tokens@.len(),
        ensures
            final(self).follows(old(self)),
            final(self).advanced(old(self)),
            (Parsed { result: stmt_result(r), cursor: final(self).cursor() }) == return_statement(
                old(self).tokens@,
                old(self).cursor(),
            ),
        decreases old(self).tokens@.len() - old(self).pos, 34nat,
    {
        let keyword = self.tokens[self.pos].clone();
        self.skip(1);
        if self.kind() == Kind::Semicolon {
            self.skip(1);
            return Ok(Stmt::Return(Box::new(ReturnStmt::new(keyword, None))));
        }
        match self.expression() {
            Ok(e) => match self.expect(Kind::Semicolon, "Expect ';' after return value.") {
                Ok(_) => Ok(Stmt::Return(Box::new(ReturnStmt::new(keyword, Some(e))))),
                Err(cause) => Err(cause),
            },
            Err(cause) => Err(cause),
        }
    }

    /// varDecl → "var" IDENT ( "=" expression )? ";", after the "var".
    fn var_declaration(&mut self) -> (r: Result<Stmt, ParseErrorCause>)
        requires
            old(self).well_formed(),
        ensures
            final(self).follows(old(self)),
            (Parsed { result: stmt_result(r), cursor: final(self).cursor() }) == var_declaration(
                old(self).tokens@,
                old(self).cursor(),
            ),
        decreases old(self).tokens@.len() - old(self).pos, 34nat,
    {
        let name = match self.identifier("Expect variable name.", "", "") {
            Ok(name) => name,
            Err(cause) => {
                assert("Expect variable name."@ + ""@ + ""@ =~= "Expect variable name."@) by {
                    reveal_strlit("");
                }
                return Err(cause);
            },
        };
        if self.kind() == Kind::Equal {
            self.skip(1);
            match self.expression() {
                Ok(e) => match self.expect(
                    Kind::Semicolon,
                    "Expect ';' after variable declaration.",
                ) {
                    Ok(_) => Ok(Stmt::Var(Box::new(VarStmt::new(name, Some(e))))),
                    Err(cause) => Err(cause),
                },
                Err(cause) => Err(cause),
            }
        } else {
            match self.expect(Kind::Semicolon, "Expect ';' after variable declaration.") {
                Ok(_) => Ok(Stmt::Var(Box::new(VarStmt::new(name, None)))),
                Err(cause) => Err(cause),
            }
        }
    }

    /// "(" expression ")": a condition in parentheses.
    fn condition(&mut self, opening: &str, closing: &str) -> (r: Result<Expr, ParseErrorCause>)
        requires
            old(self).well_formed(),
        ensures
            final(self).follows(old(self)),
            r is Ok ==> final(self).pos > old(self).pos,
            (Parsed { result: expr_result(r), cursor: final(self).cursor() }) == condition(
                old(self).tokens@,
                old(self).cursor(),
                opening@,
                closing@,
            ),
        decreases old(self).tokens@.len() - old(self).pos, 34nat,
    {
        match self.expect(Kind::LeftParen, opening) {
            Ok(_) => {},
            Err(cause) => {
                return Err(cause);
            },
        }
        match self.expression() {
            Ok(e) => match self.expect(Kind::RightParen, closing) {
                Ok(_) => Ok(e),
                Err(cause) => Err(cause),
            },
            Err(cause) => Err(cause),
        }
    }

    /// whileStmt → "while" "(" expression ")" statement, after the "while".
    fn while_statement(&mut self) -> (r: Result<Stmt, ParseErrorCause>)
        requires
            old(self).well_formed(),
        ensures
            final(self).follows(old(self)),
            (Parsed { result: stmt_result(r), cursor: final(self).cursor() }) == while_statement(
                old(self).tokens@,
                old(self).cursor(),
            ),
        decreases old(self).tokens@.len() - old(self).pos, 35nat,
    {
        let head = match self.condition("Expect '(' after 'while'.", "Expect ')' after condition.") {
            Ok(e) => e,
            Err(cause) => {
                return Err(cause);
            },
        };
        match self.statement() {
            Ok(body) => Ok(Stmt::While(Box::new(WhileStmt::new(head, body)))),
            Err(cause) => Err(cause),
        }
    }

    /// ifStmt → "if" "(" expression ")" statement ( "else" statement )?,
    /// after the "if".
    fn if_statement(&mut self) -> (r: Result<Stmt, ParseErrorCause>)
        requires
            old(self).well_formed(),
        ensures
            final(self).follows(old(self)),
            (Parsed { result: stmt_result(r), cursor: final(self).cursor() }) == if_statement(
                old(self).tokens@,
                old(self).cursor(),
            ),
        decreases old(self).tokens@.len() - old(self).pos, 35nat,
    {
        let head = match self.condition("Expect '(' after if.", "Expect ')' after if condition.") {
            Ok(e) => e,
            Err(cause) => {
                return Err(cause);
            },
        };
        let then_branch = match self.statement() {
            Ok(s) => s,
            Err(cause) => {
                return Err(cause);
            },
        };
        if self.kind() == Kind::Else {
            self.skip(1);
            match self.statement() {
                Ok(otherwise) => Ok(
                    Stmt::If(Box::new(IfStmt::new(head, then_branch, Some(otherwise)))),
                ),
                Err(cause) => Err(cause),
            }
        } else {
            Ok(Stmt::If(Box::new(IfStmt::new(head, then_branch, None))))
        }
    }

    /// The initializer clause of a `for`.
    fn for_initializer(&mut self) -> (r: Result<Option<Stmt>, ParseErrorCause>)
        requires
            old(self).well_formed(),
        ensures
            final(self).follows(old(self)),
            final(self).cursor() == for_initializer(old(self).tokens@, old(self).cursor()).cursor,
            match r {
                Ok(Some(s)) => for_initializer(old(self).tokens@, old(self).cursor()).result
                    == Ok::<Option<StmtView>, CauseView>(Some(s@)),
                Ok(None) => for_initializer(old(self).tokens@, old(self).cursor()).result == Ok::<
                    Option<StmtView>,
                    CauseView,
                >(None),
                Err(cause) => for_initializer(old(self).tokens@, old(self).cursor()).result
                    == Err::<Option<StmtView>, CauseView>(cause@),
            },
        decreases old(self).tokens@.len() - old(self).pos, 35nat,
    {
        let kind = self.kind();
        if kind == Kind::Semicolon {
            self.skip(1);
            return Ok(None);
        }
        let clause = if kind == Kind::Var {
            self.skip(1);
            self.var_declaration()
        } else {
            self.expression_statement()
        };
        match clause {
            Ok(s) => Ok(Some(s)),
            Err(cause) => Err(cause),
        }
    }

    /// An optional expression up to the token of kind `stop`, which is read
    /// too.
    fn for_clause(&mut self, stop: Kind, message: &str) -> (r: Result<
        Option<Expr>,
        ParseErrorCause,
    >)
        requires
            old(self).well_formed(),
            stop != Kind::Eof,
        ensures
            final(self).follows(old(self)),
            final(self).cursor() == for_clause(
                old(self).tokens@,
                old(self).cursor(),
                stop,
                message@,
            ).cursor,
            match r {
                Ok(e) => for_clause(old(self).tokens@, old(self).cursor(), stop, message@).result
                    == Ok::<Option<ExprView>, CauseView>(optional_view(e)),
                Err(cause) => for_clause(
                    old(self).tokens@,
                    old(self).cursor(),
                    stop,
                    message@,
                ).result == Err::<Option<ExprView>, CauseView>(cause@),
            },
        decreases old(self).tokens@.len() - old(self).pos, 35nat,
    {
        if self.kind() == stop {
            self.skip(1);
            return Ok(None);
        }
        match self.expression() {
            Ok(e) => match self.expect(stop, message) {
                Ok(_) => Ok(Some(e)),
                Err(cause) => Err(cause),
            },
            Err(cause) => Err(cause),
        }
    }

    /// forStmt → "for" "(" ( varDecl | exprStmt | ";" ) expression? ";"
    /// expression? ")" statement, after the "for".
    fn for_statement(&mut self) -> (r: Result<Stmt, ParseErrorCause>)
        requires
            old(self).well_formed(),
        ensures
            final(self).follows(old(self)),
            (Parsed { result: stmt_result(r), cursor: final(self).cursor() }) == for_statement(
                old(self).tokens@,
                old(self).cursor(),
            ),
        decreases old(self).tokens@.len() - old(self).pos, 36nat,
    {
        match self.expect(Kind::LeftParen, "Expect '(' after 'for'.") {
            Ok(_) => {},
            Err(cause) => {
                return Err(cause);
            },
        }
        let initializer = match self.for_initializer() {
            Ok(i) => i,
            Err(cause) => {
                return Err(cause);
            },
        };
        let condition = match self.for_clause(Kind::Semicolon, "Expect ';' after loop condition.") {
            Ok(c) => c,
            Err(cause) => {
                return Err(cause);
            },
        };
        let increment = match self.for_clause(Kind::RightParen, "Expect ')' after for clauses.") {
            Ok(i) => i,
            Err(cause) => {
                return Err(cause);
            },
        };
        match self.statement() {
            Ok(body) => Ok(desugared(initializer, condition, increment, body)),
            Err(cause) => Err(cause),
        }
    }

    /// declaration* "}", after the statements in `list`.
    fn block_rest(&mut self, list: Vec<Stmt>) -> (r: Result<Vec<Stmt>, ParseErrorCause>)
        requires
            old(self).well_formed(),
        ensures
            final(self).follows(old(self)),
            (Parsed { result: stmts_result(r), cursor: final(self).cursor() }) == block_rest(
                old(self).tokens@,
                old(self).cursor(),
                stmts_view(list@),
            ),
        decreases old(self).tokens@.len() - old(self).pos, 42nat,
    {
        let kind = self.kind();
        if kind == Kind::RightBrace {
            self.skip(1);
            return Ok(list);
        }
        if kind == Kind::Eof {
            return Err(self.cause("Expect '}' after block."));
        }
        match self.declaration() {
            Ok(s) => {
                let mut list = list;
                proof {
                    lemma_stmts_view_push(list@, s);
                }
                list.push(s);
                self.block_rest(list)
            },
            Err(cause) => Err(cause),
        }
    }

    /// block → "{" declaration* "}", after the "{".
    fn block(&mut self) -> (r: Result<Vec<Stmt>, ParseErrorCause>)
        requires
            old(self).well_formed(),
        ensures
            final(self).follows(old(self)),
            (Parsed { result: stmts_result(r), cursor: final(self).cursor() }) == block(
                old(self).tokens@,
                old(self).cursor(),
            ),
        decreases old(self).tokens@.len() - old(self).pos, 43nat,
    {
        let list: Vec<Stmt> = Vec::new();
        assert(stmts_view(list@) =~= Seq::empty());
        self.block_rest(list)
    }

    /// statement → exprStmt | forStmt | ifStmt | printStmt | returnStmt
    ///           | whileStmt | block
    fn statement(&mut self) -> (r: Result<Stmt, ParseErrorCause>)
        requires
            old(self).well_formed(),
        ensures
            final(self).follows(old(self)),
            final(self).advanced(old(self)),
            (Parsed { result: stmt_result(r), cursor: final(self).cursor() }) == statement(
                old(self).tokens@,
                old(self).cursor(),
            ),
        decreases old(self).tokens@.len() - old(self).pos, 40nat,
    {
        let kind = self.kind();
        if kind == Kind::If {
            self.skip(1);
            self.if_statement()
        } else if kind == Kind::Print {
            self.skip(1);
            self.print_statement()
        } else if kind == Kind::Return {
            self.return_statement()
        } else if kind == Kind::While {
            self.skip(1);
            self.while_statement()
        } else if kind == Kind::For {
            self.skip(1);
            self.for_statement()
        } else if kind == Kind::LeftBrace {
            self.skip(1);
            match self.block() {
                Ok(statements) => Ok(Stmt::Block(Box::new(BlockStmt::new(statements)))),
                Err(cause) => Err(cause),
            }
        } else {
            self.expression_statement()
        }
    }

    /// parameters → IDENT ( "," IDENT )*, after the parameters in `list`.
    fn parameters(&mut self, list: Vec<Token>) -> (r: Result<Vec<Token>, ParseErrorCause>)
        requires
            old(self).well_formed(),
        ensures
            final(self).follows(old(self)),
            final(self).cursor() == parameters(
                old(self).tokens@,
                old(self).cursor(),
                list@,
            ).cursor,
            match r {
                Ok(params) => parameters(old(self).tokens@, old(self).cursor(), list@).result
                    == Ok::<Seq<Token>, CauseView>(params@),
                Err(cause) => parameters(old(self).tokens@, old(self).cursor(), list@).result
                    == Err::<Seq<Token>, CauseView>(cause@),
            },
        decreases old(self).tokens@.len() - old(self).pos,
    {
        if self.kind() != Kind::Identifier {
            return Err(self.cause("Expect parameter name."));
        }
        let mut list = list;
        if list.len() >= 255 {
            self.report("Can't have more than 255 parameters.");
        }
        list.push(self.tokens[self.pos].clone());
        self.skip(1);
        if self.kind() == Kind::Comma {
            self.skip(1);
            self.parameters(list)
        } else {
            Ok(list)
        }
    }

    /// function → IDENT "(" parameters? ")" block, for a function or a
    /// method as `what` says.
    fn function(&mut self, what: &str) -> (r: Result<FunctionStmt, ParseErrorCause>)
        requires
            old(self).well_formed(),
        ensures
            final(self).follows(old(self)),
            r is Ok ==> final(self).pos > old(self).pos,
            (Parsed { result: declaration_result(r), cursor: final(self).cursor() }) == function(
                old(self).tokens@,
                old(self).cursor(),
                what@,
            ),
        decreases old(self).tokens@.len() - old(self).pos, 44nat,
    {
        let name = match self.identifier("Expect ", what, " name.") {
            Ok(name) => name,
            Err(cause) => {
                return Err(cause);
            },
        };
        if self.kind() != Kind::LeftParen {
            return Err(self.joined_cause("Expect '(' after ", what, " name."));
        }
        self.skip(1);
        let list: Vec<Token> = Vec::new();
        let params = if self.kind() != Kind::RightParen {
            match self.parameters(list) {
                Ok(params) => params,
                Err(cause) => {
                    return Err(cause);
                },
            }
        } else {
            list
        };
        match self.expect(Kind::RightParen, "Expect ')' after parameters.") {
            Ok(_) => {},
            Err(cause) => {
                return Err(cause);
            },
        }
        if self.kind() != Kind::LeftBrace {
            return Err(self.joined_cause("Expect '{' before ", what, " body."));
        }
        self.skip(1);
        match self.block() {
            Ok(body) => Ok(FunctionStmt::new(name, params, body)),
            Err(cause) => Err(cause),
        }
    }

    /// function* "}", after the methods in `list`.
    fn methods_rest(&mut self, list: Vec<Rc<FunctionStmt>>) -> (r: Result<
        Vec<Rc<FunctionStmt>>,
        ParseErrorCause,
    >)
        requires
            old(self).well_formed(),
        ensures
            final(self).follows(old(self)),
            final(self).cursor() == methods_rest(
                old(self).tokens@,
                old(self).cursor(),
                declarations_view(list@),
            ).cursor,
            match r {
                Ok(methods) => methods_rest(
                    old(self).tokens@,
                    old(self).cursor(),
                    declarations_view(list@),
                ).result == Ok::<Seq<DeclarationView>, CauseView>(declarations_view(methods@)),
                Err(cause) => methods_rest(
                    old(self).tokens@,
                    old(self).cursor(),
                    declarations_view(list@),
                ).result == Err::<Seq<DeclarationView>, CauseView>(cause@),
            },
        decreases old(self).tokens@.len() - old(self).pos, 45nat,
    {
        let kind = self.kind();
        if kind == Kind::RightBrace {
            self.skip(1);
            return Ok(list);
        }
        if kind == Kind::Eof {
            return Err(self.cause("Expect '}' after class body."));
        }
        match self.function("method") {
            Ok(method) => {
                let mut list = list;
                let shared = Rc::new(method);
                proof {
                    lemma_declarations_view_push(list@, shared);
                }
                list.push(shared);
                self.methods_rest(list)
            },
            Err(cause) => Err(cause),
        }
    }

    /// classDecl → "class" IDENT ( "<" IDENT )? "{" function* "}", after
    /// the "class".
    fn class_declaration(&mut self) -> (r: Result<Stmt, ParseErrorCause>)
        requires
            old(self).well_formed(),
        ensures
            final(self).follows(old(self)),
            (Parsed { result: stmt_result(r), cursor: final(self).cursor() }) == class_declaration(
                old(self).tokens@,
                old(self).cursor(),
            ),
        decreases old(self).tokens@.len() - old(self).pos, 46nat,
    {
        let name = match self.identifier("Expect class name.", "", "") {
            Ok(name) => name,
            Err(cause) => {
                assert("Expect class name."@ + ""@ + ""@ =~= "Expect class name."@) by {
                    reveal_strlit("");
                }
                return Err(cause);
            },
        };
        let end = self.tokens.len();
        let superclass = if self.kind() == Kind::Less {
            assert(self.pos < end);
            let id = self.pos + 1;
            match self.named("Expect superclass name.") {
                Ok(parent) => Some(VariableExpr::new(id, parent)),
                Err(cause) => {
                    return Err(cause);
                },
            }
        } else {
            None
        };
        match self.expect(Kind::LeftBrace, "Expect '{' before class body.") {
            Ok(_) => {},
            Err(cause) => {
                return Err(cause);
            },
        }
        let list: Vec<Rc<FunctionStmt>> = Vec::new();
        assert(declarations_view(list@) =~= Seq::empty());
        match self.methods_rest(list) {
            Ok(methods) => Ok(Stmt::Class(Box::new(ClassStmt::new(name, methods, superclass)))),
            Err(cause) => Err(cause),
        }
    }

    /// declaration → classDecl | funDecl | varDecl | statement
    fn declaration(&mut self) -> (r: Result<Stmt, ParseErrorCause>)
        requires
            old(self).well_formed(),
        ensures
            final(self).follows(old(self)),
            final(self).advanced(old(self)),
            (Parsed { result: stmt_result(r), cursor: final(self).cursor() }) == declaration(
                old(self).tokens@,
                old(self).cursor(),
            ),
        decreases old(self).tokens@.len() - old(self).pos, 41nat,
    {
        let kind = self.kind();
        if kind == Kind::Var {
            self.skip(1);
            self.var_declaration()
        } else if kind == Kind::Fun {
            self.skip(1);
            match self.function("function") {
                Ok(declared) => Ok(Stmt::Function(Rc::new(declared))),
                Err(cause) => Err(cause),
            }
        } else if kind == Kind::Class {
            self.skip(1);
            self.class_declaration()
        } else {
            self.statement()
        }
    }

    /// Moves on to the next token that may start a statement, or to `Eof`.
    fn sync(&mut self)
        requires
            old(self).well_formed(),
        ensures
            final(self).tokens == old(self).tokens,
            final(self).errors == old(self).errors,
            final(self).well_formed(),
            final(self).pos == synchronize(old(self).tokens@, old(self).pos as int),
            final(self).pos >= old(self).pos,
    {
        loop
            invariant
                self.well_formed(),
                self.tokens == old(self).tokens,
                self.errors == old(self).errors,
                self.pos >= old(self).pos,
                synchronize(self.tokens@, self.pos as int) == synchronize(
                    old(self).tokens@,
                    old(self).pos as int,
                ),
            decreases self.tokens@.len() - self.pos,
        {
            let kind = self.kind();
            if kind == Kind::Eof || kind == Kind::Class || kind == Kind::Fun || kind == Kind::Var
                || kind == Kind::For || kind == Kind::If || kind == Kind::While || kind
                == Kind::Print || kind == Kind::Return {
                return ;
            }
            self.skip(1);
        }
    }

    /// declaration* up to `Eof`: the statements of the program. The cause
    /// of a failed declaration is reported, and parsing resumes at the next
    /// token that may start a statement.
    fn program(&mut self) -> (statements: Vec<Stmt>)
        requires
            old(self).well_formed(),
        ensures
            final(self).well_formed(),
            final(self).tokens == old(self).tokens,
            (stmts_view(statements@), final(self).cursor().reported) == program(
                old(self).tokens@,
                old(self).cursor(),
                Seq::empty(),
            ),
    {
        let mut statements: Vec<Stmt> = Vec::new();
        assert(stmts_view(statements@) =~= Seq::empty());
        loop
            invariant
                self.well_formed(),
                self.tokens == old(self).tokens,
                program(self.tokens@, self.cursor(), stmts_view(statements@)) == program(
                    old(self).tokens@,
                    old(self).cursor(),
                    Seq::empty(),
                ),
            decreases self.tokens@.len() - self.pos,
        {
            if self.kind() == Kind::Eof {
                return statements;
            }
            match self.declaration() {
                Ok(s) => {
                    proof {
                        lemma_stmts_view_push(statements@, s);
                    }
                    statements.push(s);
                },
                Err(cause) => {
                    let ghost before = causes_view(self.errors@);
                    self.errors.push(cause);
                    assert(causes_view(self.errors@) =~= before.push(cause@));
                    self.sync();
                },
            }
        }
    }

    /// Parses the tokens from where the parser stands and hands out the
    /// statements of the program, or, where anything was reported, the
    /// causes in the order they were found.
    pub fn parse(&mut self) -> (r: Result<Vec<Stmt>, LoxResult>)
        requires
            old(self).well_formed(),
        ensures
            final(self).well_formed(),
            final(self).tokens() == old(self).tokens(),
            ({
                let all = program(old(self).tokens(), old(self).cursor(), Seq::empty());
                match r {
                    Ok(statements) => all.1.len() == 0 && stmts_view(statements@) == all.0,
                    Err(e) => all.1.len() > 0 && e@ == (Outcome::ParseError { causes: all.1 }),
                }
            }),
            old(self).cursor() == (Cursor { pos: 0, reported: Seq::empty() }) ==> match r {
                Ok(statements) => parse(old(self).tokens()) == Ok::<
                    Seq<StmtView>,
                    Seq<CauseView>,
                >(stmts_view(statements@)),
                Err(e) => parse(old(self).tokens()) matches Err(causes) && e@
                    == (Outcome::ParseError { causes }),
            },
    {
        let statements = self.program();
        let mut errors: Vec<ParseErrorCause> = Vec::new();
        std::mem::swap(&mut self.errors, &mut errors);
        if errors.len() == 0 {
            Ok(statements)
        } else {
            Err(LoxResult::ParseError { causes: errors })
        }
    }
}

/// The loop that a `for` stands for.
fn desugared(initializer: Option<Stmt>, condition: Option<Expr>, increment: Option<Expr>, body: Stmt)
    -> (s: Stmt)
    ensures
        s@ == desugar(
            match initializer {
                Some(i) => Some(i@),
                None => None,
            },
            match condition {
                Some(c) => c@,
                None => ExprView::Literal { literal: Literal::Boolean(true) },
            },
            optional_view(increment),
            body@,
        ),
{
    let test = match condition {
        Some(c) => c,
        None => Expr::Literal(Literal::Boolean(true)),
    };
    let stepped = match increment {
        Some(i) => {
            let step = Stmt::Expression(Box::new(ExpressionStmt::new(i)));
            pair(body, step)
        },
        None => body,
    };
    let looped = Stmt::While(Box::new(WhileStmt::new(test, stepped)));
    match initializer {
        Some(i) => pair(i, looped),
        None => looped,
    }
}

/// The block of two statements.
fn pair(first: Stmt, second: Stmt) -> (s: Stmt)
    ensures
        s@ == (StmtView::Block { statements: seq![first@, second@] }),
{
    let mut statements: Vec<Stmt> = Vec::new();
    proof {
        lemma_stmts_view_push(statements@, first);
        lemma_stmts_view_push(statements@.push(first), second);
    }
    statements.push(first);
    statements.push(second);
    assert(stmts_view(statements@) =~= seq![first@, second@]);
    Stmt::Block(Box::new(BlockStmt::new(statements)))
}

/// Whether `kind` is an operator of the binary level `level`.
fn operates(level: u8, kind: Kind) -> (b: bool)
    ensures
        b == is_operator(level as nat, kind),
{
    if level == 0 {
        kind == Kind::Slash || kind == Kind::Star
    } else if level == 1 {
        kind == Kind::Minus || kind == Kind::Plus
    } else if level == 2 {
        kind == Kind::Greater || kind == Kind::GreaterEqual || kind == Kind::Less || kind
            == Kind::LessEqual
    } else if level == 3 {
        kind == Kind::BangEqual || kind == Kind::EqualEqual
    } else if level == 4 {
        kind == Kind::And
    } else if level == 5 {
        kind == Kind::Or
    } else {
        false
    }
}

} // verus!
