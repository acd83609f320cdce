//! The identity of expressions.
//!
//! The resolver's bindings find a variable-shaped expression by its id. The
//! parser gives such an expression the position of its name token as id, so
//! that no two of them in a program have the same: whatever the tokens, each
//! position is the id of at most one variable-shaped expression of the
//! statements parsed.

use crate::expr::{ExprView, Literal};
use crate::grammar::{
    arguments, assign_to, assignment, at, binary, binary_rest, block, block_rest, call,
    call_rest, class_declaration, combine, condition, conditional, declaration, desugar, done,
    expression, expression_statement, finish_call, for_clause, for_initializer, for_statement,
    function, if_statement, is_operator, kind_at, lemma_arguments_move, lemma_assignment_moves,
    lemma_binary_moves, lemma_binary_rest_moves, lemma_block_moves, lemma_block_rest_moves,
    lemma_call_rest_moves, lemma_class_declaration_moves, lemma_condition_moves,
    lemma_conditional_moves, lemma_declaration_moves, lemma_expression_moves,
    lemma_expression_statement_moves, lemma_finish_call_moves, lemma_for_clause_moves,
    lemma_for_initializer_moves, lemma_for_statement_moves, lemma_function_moves,
    lemma_if_statement_moves, lemma_methods_rest_moves, lemma_parameters_move,
    lemma_primary_moves, lemma_print_statement_moves, lemma_statement_moves,
    lemma_synchronize_moves, lemma_unary_moves, lemma_var_declaration_moves,
    lemma_while_statement_moves, methods_rest, parameters, primary, print_statement, program,
    remaining, report, return_statement, statement, synchronize, unary, var_declaration,
    while_statement, Cursor,
};
use crate::stmt::{DeclarationView, StmtView};
use crate::token::{Kind, Token};
use vstd::prelude::*;

verus! {

/// One if `id` is the position `x`, else none.
pub open spec fn hit(id: usize, x: int) -> nat {
    if id as int == x {
        1
    } else {
        0
    }
}

/// How many variable-shaped expressions in `e` have the id `x`.
pub open spec fn expr_count(e: ExprView, x: int) -> nat
    decreases e,
{
    match e {
        ExprView::Assign { id, value, .. } => hit(id, x) + expr_count(*value, x),
        ExprView::Binary { left, right, .. } => expr_count(*left, x) + expr_count(*right, x),
        ExprView::Call { callee, arguments, .. } => expr_count(*callee, x) + exprs_count(
            arguments,
            x,
        ),
        ExprView::Conditional { condition, left, right } => expr_count(*condition, x) + expr_count(
            *left,
            x,
        ) + expr_count(*right, x),
        ExprView::Get { object, .. } => expr_count(*object, x),
        ExprView::Grouping { expression } => expr_count(*expression, x),
        ExprView::Literal { .. } => 0,
        ExprView::Logical { left, right, .. } => expr_count(*left, x) + expr_count(*right, x),
        ExprView::SetField { object, value, .. } => expr_count(*object, x) + expr_count(*value, x),
        ExprView::Super { id, .. } => hit(id, x),
        ExprView::This { id, .. } => hit(id, x),
        ExprView::Unary { right, .. } => expr_count(*right, x),
        ExprView::Variable { id, .. } => hit(id, x),
    }
}

/// How many variable-shaped expressions in the expressions have the id `x`.
pub open spec fn exprs_count(exprs: Seq<ExprView>, x: int) -> nat
    decreases exprs,
{
    if exprs.len() == 0 {
        0
    } else {
        exprs_count(exprs.drop_last(), x) + expr_count(exprs.last(), x)
    }
}

/// How many variable-shaped expressions in an optional expression have the
/// id `x`.
pub open spec fn optional_count(e: Option<ExprView>, x: int) -> nat {
    match e {
        Some(e) => expr_count(e, x),
        None => 0,
    }
}

/// How many variable-shaped expressions in a function declaration have the
/// id `x`.
pub open spec fn declaration_count(d: DeclarationView, x: int) -> nat
    decreases d,
{
    stmts_count(d.body, x)
}

/// How many variable-shaped expressions in the declarations have the id
/// `x`.
pub open spec fn declarations_count(declarations: Seq<DeclarationView>, x: int) -> nat
    decreases declarations,
{
    if declarations.len() == 0 {
        0
    } else {
        declarations_count(declarations.drop_last(), x) + declaration_count(
            declarations.last(),
            x,
        )
    }
}

/// How many variable-shaped expressions in `s` have the id `x`.
pub open spec fn stmt_count(s: StmtView, x: int) -> nat
    decreases s,
{
    match s {
        StmtView::Block { statements } => stmts_count(statements, x),
        StmtView::Class { methods, superclass, .. } => (match superclass {
            Some(parent) => hit(parent.id, x),
            None => 0,
        }) + declarations_count(methods, x),
        StmtView::Expression { expression } => expr_count(expression, x),
        StmtView::Function { declaration } => declaration_count(declaration, x),
        StmtView::If { condition, then_branch, else_branch } => expr_count(condition, x)
            + stmt_count(*then_branch, x) + (match else_branch {
            Some(otherwise) => stmt_count(*otherwise, x),
            None => 0,
        }),
        StmtView::Print { expression } => expr_count(expression, x),
        StmtView::Return { value, .. } => optional_count(value, x),
        StmtView::Var { initializer, .. } => optional_count(initializer, x),
        StmtView::While { condition, body } => expr_count(condition, x) + stmt_count(*body, x),
    }
}

/// How many variable-shaped expressions in the statements have the id `x`.
pub open spec fn stmts_count(stmts: Seq<StmtView>, x: int) -> nat
    decreases stmts,
{
    if stmts.len() == 0 {
        0
    } else {
        stmts_count(stmts.drop_last(), x) + stmt_count(stmts.last(), x)
    }
}

/// Whether a count of expressions with the id `x` says that there is at
/// most one, and that only with `x` from `lo` up to `hi`.
pub open spec fn once(n: int, x: int, lo: int, hi: int) -> bool {
    0 <= n <= 1 && (n > 0 ==> lo <= x < hi)
}

/// One more expression adds its count.
proof fn lemma_exprs_push(exprs: Seq<ExprView>, e: ExprView, x: int)
    ensures
        exprs_count(exprs.push(e), x) == exprs_count(exprs, x) + expr_count(e, x),
{
    assert(exprs.push(e).drop_last() =~= exprs);
}

/// One more statement adds its count.
proof fn lemma_stmts_push(stmts: Seq<StmtView>, s: StmtView, x: int)
    ensures
        stmts_count(stmts.push(s), x) == stmts_count(stmts, x) + stmt_count(s, x),
{
    assert(stmts.push(s).drop_last() =~= stmts);
}

/// One more declaration adds its count.
proof fn lemma_declarations_push(declarations: Seq<DeclarationView>, d: DeclarationView, x: int)
    ensures
        declarations_count(declarations.push(d), x) == declarations_count(declarations, x)
            + declaration_count(d, x),
{
    assert(declarations.push(d).drop_last() =~= declarations);
}

/// A pair of statements counts what both count.
proof fn lemma_pair_count(first: StmtView, second: StmtView, x: int)
    ensures
        stmts_count(seq![first, second], x) == stmt_count(first, x) + stmt_count(second, x),
{
    let both = seq![first, second];
    let one = seq![first];
    assert(both.drop_last() =~= one);
    assert(one.drop_last() =~= Seq::<StmtView>::empty());
    assert(stmts_count(Seq::<StmtView>::empty(), x) == 0);
    assert(stmts_count(one, x) == stmts_count(one.drop_last(), x) + stmt_count(one.last(), x));
    assert(stmts_count(both, x) == stmts_count(both.drop_last(), x) + stmt_count(
        both.last(),
        x,
    ));
}

/// The loop that a `for` stands for holds the expressions of its clauses
/// and body, each once.
proof fn lemma_desugar_count(
    initializer: Option<StmtView>,
    condition: ExprView,
    increment: Option<ExprView>,
    body: StmtView,
    x: int,
)
    ensures
        stmt_count(desugar(initializer, condition, increment, body), x) == (match initializer {
            Some(i) => stmt_count(i, x),
            None => 0,
        }) + expr_count(condition, x) + optional_count(increment, x) + stmt_count(body, x),
{
    let stepped = match increment {
        Some(i) => StmtView::Block { statements: seq![body, StmtView::Expression { expression: i }] },
        None => body,
    };
    match increment {
        Some(i) => {
            lemma_pair_count(body, StmtView::Expression { expression: i }, x);
        },
        None => {},
    }
    let looped = StmtView::While { condition, body: Box::new(stepped) };
    assert(stmt_count(looped, x) == expr_count(condition, x) + stmt_count(stepped, x));
    match initializer {
        Some(i) => {
            lemma_pair_count(i, looped, x);
        },
        None => {},
    }
}

/// In a primary expression at most one variable-shaped expression has the id
/// `x`, and that only with `x` a position that was read.
pub proof fn lemma_primary_ids(tokens: Seq<Token>, c: Cursor, x: int)
    requires
        0 <= c.pos <= tokens.len() <= usize::MAX,
    ensures
        primary(tokens, c).result matches Ok(e) ==> once(
            expr_count(e, x) as int,
            x,
            c.pos,
            primary(tokens, c).cursor.pos,
        ),
    decreases remaining(tokens, c.pos), 1nat,
{
    lemma_primary_moves(tokens, c);
    if kind_at(tokens, c.pos) == Kind::LeftParen {
        lemma_expression_moves(tokens, at(c, c.pos + 1));
        lemma_expression_ids(tokens, at(c, c.pos + 1), x);
    }
}

/// In arguments, beyond those parsed before, at most one variable-shaped
/// expression has the id `x`, and that only with `x` a position that was read.
pub proof fn lemma_arguments_ids(tokens: Seq<Token>, c: Cursor, so_far: Seq<ExprView>, x: int)
    requires
        0 <= c.pos <= tokens.len() <= usize::MAX,
    ensures
        arguments(tokens, c, so_far).result matches Ok(list) ==> once(
            exprs_count(list, x) - exprs_count(so_far, x),
            x,
            c.pos,
            arguments(tokens, c, so_far).cursor.pos,
        ),
    decreases remaining(tokens, c.pos), 50nat,
{
    let told = if so_far.len() >= 255 {
        report(tokens, c, c.pos, "Can't have more than 255 arguments."@)
    } else {
        c
    };
    lemma_expression_moves(tokens, told);
    lemma_expression_ids(tokens, told, x);
    let argument = expression(tokens, told);
    match argument.result {
        Ok(e) => {
            lemma_exprs_push(so_far, e, x);
            if kind_at(tokens, argument.cursor.pos) == Kind::Comma {
                let next = at(argument.cursor, argument.cursor.pos + 1);
                lemma_arguments_move(tokens, next, so_far.push(e));
                lemma_arguments_ids(tokens, next, so_far.push(e), x);
            }
        },
        Err(_) => {},
    }
}

/// In the rest of a call, beyond its callee, at most one variable-shaped
/// expression has the id `x`, and that only with `x` a position that was read.
pub proof fn lemma_finish_call_ids(tokens: Seq<Token>, c: Cursor, callee: ExprView, x: int)
    requires
        0 <= c.pos <= tokens.len() <= usize::MAX,
    ensures
        finish_call(tokens, c, callee).result matches Ok(e) ==> once(
            expr_count(e, x) - expr_count(callee, x),
            x,
            c.pos,
            finish_call(tokens, c, callee).cursor.pos,
        ),
    decreases remaining(tokens, c.pos), 51nat,
{
    lemma_finish_call_moves(tokens, c, callee);
    let none = Seq::<ExprView>::empty();
    assert(exprs_count(none, x) == 0);
    if kind_at(tokens, c.pos) != Kind::RightParen {
        lemma_arguments_move(tokens, c, none);
        lemma_arguments_ids(tokens, c, none, x);
        let list = arguments(tokens, c, none);
        match list.result {
            Ok(found) => {
                if kind_at(tokens, list.cursor.pos) == Kind::RightParen {
                    let made = ExprView::Call {
                        callee: Box::new(callee),
                        paren: tokens[list.cursor.pos],
                        arguments: found,
                    };
                    assert(expr_count(made, x) == expr_count(callee, x) + exprs_count(found, x));
                }
            },
            Err(_) => {},
        }
    } else {
        let made = ExprView::Call {
            callee: Box::new(callee),
            paren: tokens[c.pos],
            arguments: none,
        };
        assert(expr_count(made, x) == expr_count(callee, x) + exprs_count(none, x));
    }
}

/// In calls and property accesses, beyond their callee, at most one variable-
/// shaped expression has the id `x`, and that only with `x` a position that
/// was read.
pub proof fn lemma_call_rest_ids(tokens: Seq<Token>, c: Cursor, callee: ExprView, x: int)
    requires
        0 <= c.pos <= tokens.len() <= usize::MAX,
    ensures
        call_rest(tokens, c, callee).result matches Ok(e) ==> once(
            expr_count(e, x) - expr_count(callee, x),
            x,
            c.pos,
            call_rest(tokens, c, callee).cursor.pos,
        ),
    decreases remaining(tokens, c.pos), 3nat,
{
    lemma_call_rest_moves(tokens, c, callee);
    let kind = kind_at(tokens, c.pos);
    if kind == Kind::LeftParen {
        let next = at(c, c.pos + 1);
        lemma_finish_call_moves(tokens, next, callee);
        lemma_finish_call_ids(tokens, next, callee, x);
        let called = finish_call(tokens, next, callee);
        match called.result {
            Ok(e) => {
                lemma_call_rest_moves(tokens, called.cursor, e);
                lemma_call_rest_ids(tokens, called.cursor, e, x);
            },
            Err(_) => {},
        }
    } else if kind == Kind::Dot {
        if kind_at(tokens, c.pos + 1) == Kind::Identifier {
            let got = ExprView::Get { object: Box::new(callee), name: tokens[c.pos + 1] };
            lemma_call_rest_moves(tokens, at(c, c.pos + 2), got);
            lemma_call_rest_ids(tokens, at(c, c.pos + 2), got, x);
        }
    }
}

/// In a call at most one variable-shaped expression has the id `x`, and
/// that only with `x` a position that was read.
pub proof fn lemma_call_ids(tokens: Seq<Token>, c: Cursor, x: int)
    requires
        0 <= c.pos <= tokens.len() <= usize::MAX,
    ensures
        call(tokens, c).result matches Ok(e) ==> once(
            expr_count(e, x) as int,
            x,
            c.pos,
            call(tokens, c).cursor.pos,
        ),
    decreases remaining(tokens, c.pos), 4nat,
{
    lemma_primary_moves(tokens, c);
    lemma_primary_ids(tokens, c, x);
    let callee = primary(tokens, c);
    match callee.result {
        Ok(e) => {
            lemma_call_rest_moves(tokens, callee.cursor, e);
            lemma_call_rest_ids(tokens, callee.cursor, e, x);
        },
        Err(_) => {},
    }
}

/// In a unary expression at most one variable-shaped expression has the id
/// `x`, and that only with `x` a position that was read.
pub proof fn lemma_unary_ids(tokens: Seq<Token>, c: Cursor, x: int)
    requires
        0 <= c.pos <= tokens.len() <= usize::MAX,
    ensures
        unary(tokens, c).result matches Ok(e) ==> once(
            expr_count(e, x) as int,
            x,
            c.pos,
            unary(tokens, c).cursor.pos,
        ),
    decreases remaining(tokens, c.pos), 5nat,
{
    let kind = kind_at(tokens, c.pos);
    if kind == Kind::Bang || kind == Kind::Minus {
        lemma_unary_moves(tokens, at(c, c.pos + 1));
        lemma_unary_ids(tokens, at(c, c.pos + 1), x);
    } else {
        lemma_call_ids(tokens, c, x);
    }
}

/// In operators and operands, beyond the left operand, at most one variable-
/// shaped expression has the id `x`, and that only with `x` a position that
/// was read.
pub proof fn lemma_binary_rest_ids(
    tokens: Seq<Token>,
    c: Cursor,
    level: nat,
    left: ExprView,
    x: int,
)
    requires
        0 <= c.pos <= tokens.len() <= usize::MAX,
    ensures
        binary_rest(tokens, c, level, left).result matches Ok(e) ==> once(
            expr_count(e, x) - expr_count(left, x),
            x,
            c.pos,
            binary_rest(tokens, c, level, left).cursor.pos,
        ),
    decreases remaining(tokens, c.pos), 10 + 2 * level,
{
    lemma_binary_rest_moves(tokens, c, level, left);
    if is_operator(level, kind_at(tokens, c.pos)) {
        let next = at(c, c.pos + 1);
        if level == 0 {
            lemma_unary_moves(tokens, next);
            lemma_unary_ids(tokens, next, x);
        } else {
            lemma_binary_moves(tokens, next, (level - 1) as nat);
            lemma_binary_ids(tokens, next, (level - 1) as nat, x);
        }
        let right = if level == 0 {
            unary(tokens, next)
        } else {
            binary(tokens, next, (level - 1) as nat)
        };
        match right.result {
            Ok(e) => {
                let joined = combine(level, left, tokens[c.pos], e);
                assert(expr_count(joined, x) == expr_count(left, x) + expr_count(e, x));
                lemma_binary_rest_moves(tokens, right.cursor, level, joined);
                lemma_binary_rest_ids(tokens, right.cursor, level, joined, x);
            },
            Err(_) => {},
        }
    }
}

/// In a binary expression at most one variable-shaped expression has the id
/// `x`, and that only with `x` a position that was read.
pub proof fn lemma_binary_ids(tokens: Seq<Token>, c: Cursor, level: nat, x: int)
    requires
        0 <= c.pos <= tokens.len() <= usize::MAX,
    ensures
        binary(tokens, c, level).result matches Ok(e) ==> once(
            expr_count(e, x) as int,
            x,
            c.pos,
            binary(tokens, c, level).cursor.pos,
        ),
    decreases remaining(tokens, c.pos), 11 + 2 * level,
{
    if level == 0 {
        lemma_unary_moves(tokens, c);
        lemma_unary_ids(tokens, c, x);
    } else {
        lemma_binary_moves(tokens, c, (level - 1) as nat);
        lemma_binary_ids(tokens, c, (level - 1) as nat, x);
    }
    let left = if level == 0 {
        unary(tokens, c)
    } else {
        binary(tokens, c, (level - 1) as nat)
    };
    match left.result {
        Ok(e) => {
            lemma_binary_rest_moves(tokens, left.cursor, level, e);
            lemma_binary_rest_ids(tokens, left.cursor, level, e, x);
        },
        Err(_) => {},
    }
}

/// In an assignment at most one variable-shaped expression has the id `x`, and
/// that only with `x` a position that was read.
pub proof fn lemma_assignment_ids(tokens: Seq<Token>, c: Cursor, x: int)
    requires
        0 <= c.pos <= tokens.len() <= usize::MAX,
    ensures
        assignment(tokens, c).result matches Ok(e) ==> once(
            expr_count(e, x) as int,
            x,
            c.pos,
            assignment(tokens, c).cursor.pos,
        ),
    decreases remaining(tokens, c.pos), 30nat,
{
    lemma_binary_moves(tokens, c, 5);
    lemma_binary_ids(tokens, c, 5, x);
    let target = binary(tokens, c, 5);
    match target.result {
        Ok(e) => {
            if kind_at(tokens, target.cursor.pos) == Kind::Equal {
                let next = at(target.cursor, target.cursor.pos + 1);
                lemma_assignment_moves(tokens, next);
                lemma_assignment_ids(tokens, next, x);
                let value = assignment(tokens, next);
                match value.result {
                    Ok(v) => {
                        let made = assign_to(tokens, e, target.cursor.pos, v, value.cursor).result;
                        assert(made matches Ok(a) && expr_count(a, x) <= expr_count(e, x)
                            + expr_count(v, x));
                    },
                    Err(_) => {},
                }
            }
        },
        Err(_) => {},
    }
}

/// In a conditional at most one variable-shaped expression has the id `x`, and
/// that only with `x` a position that was read.
pub proof fn lemma_conditional_ids(tokens: Seq<Token>, c: Cursor, x: int)
    requires
        0 <= c.pos <= tokens.len() <= usize::MAX,
    ensures
        conditional(tokens, c).result matches Ok(e) ==> once(
            expr_count(e, x) as int,
            x,
            c.pos,
            conditional(tokens, c).cursor.pos,
        ),
    decreases remaining(tokens, c.pos), 31nat,
{
    lemma_assignment_moves(tokens, c);
    lemma_assignment_ids(tokens, c, x);
    let condition = assignment(tokens, c);
    if condition.result is Ok && kind_at(tokens, condition.cursor.pos) == Kind::QuestionMark {
        let next = at(condition.cursor, condition.cursor.pos + 1);
        lemma_expression_moves(tokens, next);
        lemma_expression_ids(tokens, next, x);
        let left = expression(tokens, next);
        if left.result is Ok && kind_at(tokens, left.cursor.pos) == Kind::Colon {
            let rest = at(left.cursor, left.cursor.pos + 1);
            lemma_conditional_moves(tokens, rest);
            lemma_conditional_ids(tokens, rest, x);
        }
    }
}

/// In an expression at most one variable-shaped expression has the id `x`, and
/// that only with `x` a position that was read.
pub proof fn lemma_expression_ids(tokens: Seq<Token>, c: Cursor, x: int)
    requires
        0 <= c.pos <= tokens.len() <= usize::MAX,
    ensures
        expression(tokens, c).result matches Ok(e) ==> once(
            expr_count(e, x) as int,
            x,
            c.pos,
            expression(tokens, c).cursor.pos,
        ),
    decreases remaining(tokens, c.pos), 32nat,
{
    lemma_conditional_ids(tokens, c, x);
}

/// In an expression statement at most one variable-shaped expression has the
/// id `x`, and that only with `x` a position that was read.
pub proof fn lemma_expression_statement_ids(tokens: Seq<Token>, c: Cursor, x: int)
    requires
        0 <= c.pos <= tokens.len() <= usize::MAX,
    ensures
        expression_statement(tokens, c).result matches Ok(s) ==> once(
            stmt_count(s, x) as int,
            x,
            c.pos,
            expression_statement(tokens, c).cursor.pos,
        ),
    decreases remaining(tokens, c.pos), 33nat,
{
    lemma_expression_moves(tokens, c);
    lemma_expression_ids(tokens, c, x);
}

/// In a print statement at most one variable-shaped expression has the id `x`,
/// and that only with `x` a position that was read.
pub proof fn lemma_print_statement_ids(tokens: Seq<Token>, c: Cursor, x: int)
    requires
        0 <= c.pos <= tokens.len() <= usize::MAX,
    ensures
        print_statement(tokens, c).result matches Ok(s) ==> once(
            stmt_count(s, x) as int,
            x,
            c.pos,
            print_statement(tokens, c).cursor.pos,
        ),
    decreases remaining(tokens, c.pos), 33nat,
{
    lemma_expression_moves(tokens, c);
    lemma_expression_ids(tokens, c, x);
}

/// In a return statement at most one variable-shaped expression has the id
/// `x`, and that only with `x` a position that was read.
pub proof fn lemma_return_statement_ids(tokens: Seq<Token>, c: Cursor, x: int)
    requires
        0 <= c.pos < tokens.len() <= usize::MAX,
    ensures
        return_statement(tokens, c).result matches Ok(s) ==> once(
            stmt_count(s, x) as int,
            x,
            c.pos,
            return_statement(tokens, c).cursor.pos,
        ),
    decreases remaining(tokens, c.pos), 34nat,
{
    lemma_expression_moves(tokens, at(c, c.pos + 1));
    lemma_expression_ids(tokens, at(c, c.pos + 1), x);
}

/// In a variable declaration at most one variable-shaped expression has the id
/// `x`, and that only with `x` a position that was read.
pub proof fn lemma_var_declaration_ids(tokens: Seq<Token>, c: Cursor, x: int)
    requires
        0 <= c.pos <= tokens.len() <= usize::MAX,
    ensures
        var_declaration(tokens, c).result matches Ok(s) ==> once(
            stmt_count(s, x) as int,
            x,
            c.pos,
            var_declaration(tokens, c).cursor.pos,
        ),
    decreases remaining(tokens, c.pos), 34nat,
{
    if kind_at(tokens, c.pos) == Kind::Identifier && kind_at(tokens, c.pos + 1) == Kind::Equal {
        lemma_expression_moves(tokens, at(c, c.pos + 2));
        lemma_expression_ids(tokens, at(c, c.pos + 2), x);
    }
}

/// In a condition in parentheses at most one variable-shaped expression has
/// the id `x`, and that only with `x` a position that was read.
pub proof fn lemma_condition_ids(
    tokens: Seq<Token>,
    c: Cursor,
    opening: Seq<char>,
    closing: Seq<char>,
    x: int,
)
    requires
        0 <= c.pos <= tokens.len() <= usize::MAX,
    ensures
        condition(tokens, c, opening, closing).result matches Ok(e) ==> once(
            expr_count(e, x) as int,
            x,
            c.pos,
            condition(tokens, c, opening, closing).cursor.pos,
        ),
    decreases remaining(tokens, c.pos), 34nat,
{
    if kind_at(tokens, c.pos) == Kind::LeftParen {
        lemma_expression_moves(tokens, at(c, c.pos + 1));
        lemma_expression_ids(tokens, at(c, c.pos + 1), x);
    }
}

/// In a while statement at most one variable-shaped expression has the id `x`,
/// and that only with `x` a position that was read.
pub proof fn lemma_while_statement_ids(tokens: Seq<Token>, c: Cursor, x: int)
    requires
        0 <= c.pos <= tokens.len() <= usize::MAX,
    ensures
        while_statement(tokens, c).result matches Ok(s) ==> once(
            stmt_count(s, x) as int,
            x,
            c.pos,
            while_statement(tokens, c).cursor.pos,
        ),
    decreases remaining(tokens, c.pos), 35nat,
{
    let opening = "Expect '(' after 'while'."@;
    let closing = "Expect ')' after condition."@;
    lemma_condition_moves(tokens, c, opening, closing);
    lemma_condition_ids(tokens, c, opening, closing, x);
    let head = condition(tokens, c, opening, closing);
    if head.result is Ok {
        lemma_statement_moves(tokens, head.cursor);
        lemma_statement_ids(tokens, head.cursor, x);
    }
}

/// In an if statement at most one variable-shaped expression has the id `x`,
/// and that only with `x` a position that was read.
pub proof fn lemma_if_statement_ids(tokens: Seq<Token>, c: Cursor, x: int)
    requires
        0 <= c.pos <= tokens.len() <= usize::MAX,
    ensures
        if_statement(tokens, c).result matches Ok(s) ==> once(
            stmt_count(s, x) as int,
            x,
            c.pos,
            if_statement(tokens, c).cursor.pos,
        ),
    decreases remaining(tokens, c.pos), 35nat,
{
    let opening = "Expect '(' after if."@;
    let closing = "Expect ')' after if condition."@;
    lemma_condition_moves(tokens, c, opening, closing);
    lemma_condition_ids(tokens, c, opening, closing, x);
    let head = condition(tokens, c, opening, closing);
    if head.result is Ok {
        lemma_statement_moves(tokens, head.cursor);
        lemma_statement_ids(tokens, head.cursor, x);
        let then_branch = statement(tokens, head.cursor);
        if then_branch.result is Ok && kind_at(tokens, then_branch.cursor.pos) == Kind::Else {
            let next = at(then_branch.cursor, then_branch.cursor.pos + 1);
            lemma_statement_moves(tokens, next);
            lemma_statement_ids(tokens, next, x);
        }
    }
}

/// In the initializer clause of a `for` at most one variable-shaped expression
/// has the id `x`, and that only with `x` a position that was read.
pub proof fn lemma_for_initializer_ids(tokens: Seq<Token>, c: Cursor, x: int)
    requires
        0 <= c.pos <= tokens.len() <= usize::MAX,
    ensures
        for_initializer(tokens, c).result matches Ok(i) ==> once(
            (match i {
                Some(s) => stmt_count(s, x),
                None => 0,
            }) as int,
            x,
            c.pos,
            for_initializer(tokens, c).cursor.pos,
        ),
    decreases remaining(tokens, c.pos), 35nat,
{
    lemma_for_initializer_moves(tokens, c);
    let kind = kind_at(tokens, c.pos);
    if kind == Kind::Var {
        lemma_var_declaration_moves(tokens, at(c, c.pos + 1));
        lemma_var_declaration_ids(tokens, at(c, c.pos + 1), x);
    } else if kind != Kind::Semicolon {
        lemma_expression_statement_moves(tokens, c);
        lemma_expression_statement_ids(tokens, c, x);
    }
}

/// In a clause of a `for` at most one variable-shaped expression has the id
/// `x`, and that only with `x` a position that was read.
pub proof fn lemma_for_clause_ids(
    tokens: Seq<Token>,
    c: Cursor,
    stop: Kind,
    message: Seq<char>,
    x: int,
)
    requires
        0 <= c.pos <= tokens.len() <= usize::MAX,
    ensures
        for_clause(tokens, c, stop, message).result matches Ok(e) ==> once(
            optional_count(e, x) as int,
            x,
            c.pos,
            for_clause(tokens, c, stop, message).cursor.pos,
        ),
    decreases remaining(tokens, c.pos), 35nat,
{
    lemma_for_clause_moves(tokens, c, stop, message);
    if kind_at(tokens, c.pos) != stop {
        lemma_expression_moves(tokens, c);
        lemma_expression_ids(tokens, c, x);
    }
}

/// In a for statement at most one variable-shaped expression has the id `x`,
/// and that only with `x` a position that was read.
pub proof fn lemma_for_statement_ids(tokens: Seq<Token>, c: Cursor, x: int)
    requires
        0 <= c.pos <= tokens.len() <= usize::MAX,
    ensures
        for_statement(tokens, c).result matches Ok(s) ==> once(
            stmt_count(s, x) as int,
            x,
            c.pos,
            for_statement(tokens, c).cursor.pos,
        ),
    decreases remaining(tokens, c.pos), 36nat,
{
    if kind_at(tokens, c.pos) == Kind::LeftParen {
        let start = at(c, c.pos + 1);
        lemma_for_initializer_moves(tokens, start);
        lemma_for_initializer_ids(tokens, start, x);
        let initializer = for_initializer(tokens, start);
        match initializer.result {
            Ok(i) => {
                let first = "Expect ';' after loop condition."@;
                lemma_for_clause_moves(tokens, initializer.cursor, Kind::Semicolon, first);
                lemma_for_clause_ids(tokens, initializer.cursor, Kind::Semicolon, first, x);
                let condition = for_clause(tokens, initializer.cursor, Kind::Semicolon, first);
                match condition.result {
                    Ok(k) => {
                        let second = "Expect ')' after for clauses."@;
                        lemma_for_clause_moves(tokens, condition.cursor, Kind::RightParen, second);
                        lemma_for_clause_ids(tokens, condition.cursor, Kind::RightParen, second, x);
                        let increment = for_clause(
                            tokens,
                            condition.cursor,
                            Kind::RightParen,
                            second,
                        );
                        match increment.result {
                            Ok(n) => {
                                lemma_statement_moves(tokens, increment.cursor);
                                lemma_statement_ids(tokens, increment.cursor, x);
                                let body = statement(tokens, increment.cursor);
                                match body.result {
                                    Ok(b) => {
                                        lemma_desugar_count(
                                            i,
                                            match k {
                                                Some(e) => e,
                                                None => ExprView::Literal {
                                                    literal: Literal::Boolean(true),
                                                },
                                            },
                                            n,
                                            b,
                                            x,
                                        );
                                    },
                                    Err(_) => {},
                                }
                            },
                            Err(_) => {},
                        }
                    },
                    Err(_) => {},
                }
            },
            Err(_) => {},
        }
    }
}

/// In the rest of a block, beyond the statements parsed before, at most one
/// variable-shaped expression has the id `x`, and that only with `x` a
/// position that was read.
pub proof fn lemma_block_rest_ids(tokens: Seq<Token>, c: Cursor, so_far: Seq<StmtView>, x: int)
    requires
        0 <= c.pos <= tokens.len() <= usize::MAX,
    ensures
        block_rest(tokens, c, so_far).result matches Ok(list) ==> once(
            stmts_count(list, x) - stmts_count(so_far, x),
            x,
            c.pos,
            block_rest(tokens, c, so_far).cursor.pos,
        ),
    decreases remaining(tokens, c.pos), 42nat,
{
    lemma_block_rest_moves(tokens, c, so_far);
    let kind = kind_at(tokens, c.pos);
    if kind != Kind::RightBrace && kind != Kind::Eof {
        lemma_declaration_moves(tokens, c);
        lemma_declaration_ids(tokens, c, x);
        let next = declaration(tokens, c);
        match next.result {
            Ok(s) => {
                lemma_stmts_push(so_far, s, x);
                lemma_block_rest_moves(tokens, next.cursor, so_far.push(s));
                lemma_block_rest_ids(tokens, next.cursor, so_far.push(s), x);
            },
            Err(_) => {},
        }
    }
}

/// In a block at most one variable-shaped expression has the id `x`, and
/// that only with `x` a position that was read.
pub proof fn lemma_block_ids(tokens: Seq<Token>, c: Cursor, x: int)
    requires
        0 <= c.pos <= tokens.len() <= usize::MAX,
    ensures
        block(tokens, c).result matches Ok(list) ==> once(
            stmts_count(list, x) as int,
            x,
            c.pos,
            block(tokens, c).cursor.pos,
        ),
    decreases remaining(tokens, c.pos), 43nat,
{
    lemma_block_rest_ids(tokens, c, Seq::empty(), x);
}

/// In a statement at most one variable-shaped expression has the id `x`, and
/// that only with `x` a position that was read.
pub proof fn lemma_statement_ids(tokens: Seq<Token>, c: Cursor, x: int)
    requires
        0 <= c.pos <= tokens.len() <= usize::MAX,
    ensures
        statement(tokens, c).result matches Ok(s) ==> once(
            stmt_count(s, x) as int,
            x,
            c.pos,
            statement(tokens, c).cursor.pos,
        ),
    decreases remaining(tokens, c.pos), 40nat,
{
    let kind = kind_at(tokens, c.pos);
    let next = at(c, c.pos + 1);
    if kind == Kind::If {
        lemma_if_statement_moves(tokens, next);
        lemma_if_statement_ids(tokens, next, x);
    } else if kind == Kind::Print {
        lemma_print_statement_moves(tokens, next);
        lemma_print_statement_ids(tokens, next, x);
    } else if kind == Kind::Return {
        lemma_return_statement_ids(tokens, c, x);
    } else if kind == Kind::While {
        lemma_while_statement_moves(tokens, next);
        lemma_while_statement_ids(tokens, next, x);
    } else if kind == Kind::For {
        lemma_for_statement_moves(tokens, next);
        lemma_for_statement_ids(tokens, next, x);
    } else if kind == Kind::LeftBrace {
        lemma_block_moves(tokens, next);
        lemma_block_ids(tokens, next, x);
    } else {
        lemma_expression_statement_ids(tokens, c, x);
    }
}

/// In a function at most one variable-shaped expression has the id `x`, and
/// that only with `x` a position that was read.
pub proof fn lemma_function_ids(tokens: Seq<Token>, c: Cursor, what: Seq<char>, x: int)
    requires
        0 <= c.pos <= tokens.len() <= usize::MAX,
    ensures
        function(tokens, c, what).result matches Ok(d) ==> once(
            declaration_count(d, x) as int,
            x,
            c.pos,
            function(tokens, c, what).cursor.pos,
        ),
    decreases remaining(tokens, c.pos), 44nat,
{
    lemma_function_moves(tokens, c, what);
    if kind_at(tokens, c.pos) == Kind::Identifier && kind_at(tokens, c.pos + 1)
        == Kind::LeftParen {
        if kind_at(tokens, c.pos + 2) != Kind::RightParen {
            lemma_parameters_move(tokens, at(c, c.pos + 2), Seq::empty());
        }
        let list = if kind_at(tokens, c.pos + 2) != Kind::RightParen {
            parameters(tokens, at(c, c.pos + 2), Seq::empty())
        } else {
            done(Seq::empty(), at(c, c.pos + 2))
        };
        if list.result is Ok && kind_at(tokens, list.cursor.pos) == Kind::RightParen && kind_at(
            tokens,
            list.cursor.pos + 1,
        ) == Kind::LeftBrace {
            let start = at(list.cursor, list.cursor.pos + 2);
            lemma_block_moves(tokens, start);
            lemma_block_ids(tokens, start, x);
        }
    }
}

/// In the methods of a class, beyond those parsed before, at most one
/// variable-shaped expression has the id `x`, and that only with `x` a
/// position that was read.
pub proof fn lemma_methods_rest_ids(
    tokens: Seq<Token>,
    c: Cursor,
    so_far: Seq<DeclarationView>,
    x: int,
)
    requires
        0 <= c.pos <= tokens.len() <= usize::MAX,
    ensures
        methods_rest(tokens, c, so_far).result matches Ok(list) ==> once(
            declarations_count(list, x) - declarations_count(so_far, x),
            x,
            c.pos,
            methods_rest(tokens, c, so_far).cursor.pos,
        ),
    decreases remaining(tokens, c.pos), 45nat,
{
    lemma_methods_rest_moves(tokens, c, so_far);
    let kind = kind_at(tokens, c.pos);
    if kind != Kind::RightBrace && kind != Kind::Eof {
        lemma_function_moves(tokens, c, "method"@);
        lemma_function_ids(tokens, c, "method"@, x);
        let method = function(tokens, c, "method"@);
        match method.result {
            Ok(m) => {
                lemma_declarations_push(so_far, m, x);
                lemma_methods_rest_moves(tokens, method.cursor, so_far.push(m));
                lemma_methods_rest_ids(tokens, method.cursor, so_far.push(m), x);
            },
            Err(_) => {},
        }
    }
}

/// In a class declaration at most one variable-shaped expression has the id
/// `x`, and that only with `x` a position that was read.
pub proof fn lemma_class_declaration_ids(tokens: Seq<Token>, c: Cursor, x: int)
    requires
        0 <= c.pos <= tokens.len() <= usize::MAX,
    ensures
        class_declaration(tokens, c).result matches Ok(s) ==> once(
            stmt_count(s, x) as int,
            x,
            c.pos,
            class_declaration(tokens, c).cursor.pos,
        ),
    decreases remaining(tokens, c.pos), 46nat,
{
    lemma_class_declaration_moves(tokens, c);
    if kind_at(tokens, c.pos) == Kind::Identifier {
        let inherits = kind_at(tokens, c.pos + 1) == Kind::Less;
        let brace = if inherits {
            c.pos + 3
        } else {
            c.pos + 1
        };
        if !(inherits && kind_at(tokens, c.pos + 2) != Kind::Identifier) && kind_at(tokens, brace)
            == Kind::LeftBrace {
            lemma_methods_rest_moves(tokens, at(c, brace + 1), Seq::empty());
            lemma_methods_rest_ids(tokens, at(c, brace + 1), Seq::empty(), x);
        }
    }
}

/// In a declaration at most one variable-shaped expression has the id `x`, and
/// that only with `x` a position that was read.
pub proof fn lemma_declaration_ids(tokens: Seq<Token>, c: Cursor, x: int)
    requires
        0 <= c.pos <= tokens.len() <= usize::MAX,
    ensures
        declaration(tokens, c).result matches Ok(s) ==> once(
            stmt_count(s, x) as int,
            x,
            c.pos,
            declaration(tokens, c).cursor.pos,
        ),
    decreases remaining(tokens, c.pos), 41nat,
{
    let kind = kind_at(tokens, c.pos);
    let next = at(c, c.pos + 1);
    if kind == Kind::Var {
        lemma_var_declaration_moves(tokens, next);
        lemma_var_declaration_ids(tokens, next, x);
    } else if kind == Kind::Fun {
        lemma_function_moves(tokens, next, "function"@);
        lemma_function_ids(tokens, next, "function"@, x);
    } else if kind == Kind::Class {
        lemma_class_declaration_moves(tokens, next);
        lemma_class_declaration_ids(tokens, next, x);
    } else {
        lemma_statement_ids(tokens, c, x);
    }
}

/// Of the statements parsed from the cursor on, at most one
/// variable-shaped expression has the id `x`, and that only with `x` a
/// position from the cursor on.
pub proof fn lemma_program_ids(tokens: Seq<Token>, c: Cursor, so_far: Seq<StmtView>, x: int)
    requires
        0 <= c.pos <= tokens.len() <= usize::MAX,
    ensures
        once(
            stmts_count(program(tokens, c, so_far).0, x) - stmts_count(so_far, x),
            x,
            c.pos,
            tokens.len() as int,
        ),
    decreases remaining(tokens, c.pos),
{
    if kind_at(tokens, c.pos) != Kind::Eof {
        lemma_declaration_moves(tokens, c);
        lemma_declaration_ids(tokens, c, x);
        let next = declaration(tokens, c);
        match next.result {
            Ok(s) => {
                lemma_stmts_push(so_far, s, x);
                lemma_program_ids(tokens, next.cursor, so_far.push(s), x);
            },
            Err(cause) => {
                lemma_synchronize_moves(tokens, next.cursor.pos);
                let resume = synchronize(tokens, next.cursor.pos);
                lemma_program_ids(
                    tokens,
                    Cursor { pos: resume, reported: next.cursor.reported.push(cause) },
                    so_far,
                    x,
                );
            },
        }
    }
}

/// No two variable-shaped expressions of a parsed program have the same
/// id: each position is the id of at most one of them.
pub proof fn lemma_ids_are_different(tokens: Seq<Token>, x: int)
    requires
        tokens.len() <= usize::MAX,
    ensures
        stmts_count(
            program(tokens, Cursor { pos: 0, reported: Seq::empty() }, Seq::empty()).0,
            x,
        ) <= 1,
{
    lemma_program_ids(tokens, Cursor { pos: 0, reported: Seq::empty() }, Seq::empty(), x);
}

} // verus!
