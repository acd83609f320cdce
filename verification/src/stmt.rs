//! Statements.

use crate::expr::{Expr, ExprView, VariableExpr};
use crate::token::Token;
use std::rc::Rc;
use vstd::prelude::*;

verus! {

/// A statement. A function declaration is shared, so that every function
/// value made from it can hold it.
#[derive(Debug)]
pub enum Stmt {
    Block(Box<BlockStmt>),
    Class(Box<ClassStmt>),
    Expression(Box<ExpressionStmt>),
    Function(Rc<FunctionStmt>),
    If(Box<IfStmt>),
    Print(Box<PrintStmt>),
    Return(Box<ReturnStmt>),
    Var(Box<VarStmt>),
    While(Box<WhileStmt>),
}

/// `{ statements }`.
#[derive(Debug)]
pub struct BlockStmt {
    pub statements: Vec<Stmt>,
}

/// `class name < superclass { methods }`.
#[derive(Debug)]
pub struct ClassStmt {
    pub name: Token,
    pub methods: Vec<Rc<FunctionStmt>>,
    pub superclass: Option<VariableExpr>,
}

/// `expression;`.
#[derive(Debug)]
pub struct ExpressionStmt {
    pub expression: Expr,
}

/// A function or method declaration: `name(params) { body }`.
#[derive(Debug)]
pub struct FunctionStmt {
    pub name: Token,
    pub params: Vec<Token>,
    pub body: Vec<Stmt>,
}

/// `if (condition) then_branch else else_branch`.
#[derive(Debug)]
pub struct IfStmt {
    pub condition: Expr,
    pub then_branch: Stmt,
    pub else_branch: Option<Stmt>,
}

/// `print expression;`.
#[derive(Debug)]
pub struct PrintStmt {
    pub expression: Expr,
}

/// `return value;`; `keyword` locates errors.
#[derive(Debug)]
pub struct ReturnStmt {
    pub keyword: Token,
    pub value: Option<Expr>,
}

/// `var name = initializer;`.
#[derive(Debug)]
pub struct VarStmt {
    pub name: Token,
    pub initializer: Option<Expr>,
}

/// `while (condition) body`.
#[derive(Debug)]
pub struct WhileStmt {
    pub condition: Expr,
    pub body: Stmt,
}

impl BlockStmt {
    pub fn new(statements: Vec<Stmt>) -> (s: BlockStmt)
        ensures
            s == (BlockStmt { statements }),
    {
        BlockStmt { statements }
    }
}

impl ClassStmt {
    pub fn new(name: Token, methods: Vec<Rc<FunctionStmt>>, superclass: Option<VariableExpr>) -> (s:
        ClassStmt)
        ensures
            s == (ClassStmt { name, methods, superclass }),
    {
        ClassStmt { name, methods, superclass }
    }
}

impl ExpressionStmt {
    pub fn new(expression: Expr) -> (s: ExpressionStmt)
        ensures
            s == (ExpressionStmt { expression }),
    {
        ExpressionStmt { expression }
    }
}

impl FunctionStmt {
    pub fn new(name: Token, params: Vec<Token>, body: Vec<Stmt>) -> (s: FunctionStmt)
        ensures
            s == (FunctionStmt { name, params, body }),
    {
        FunctionStmt { name, params, body }
    }
}

impl IfStmt {
    pub fn new(condition: Expr, then_branch: Stmt, else_branch: Option<Stmt>) -> (s: IfStmt)
        ensures
            s == (IfStmt { condition, then_branch, else_branch }),
    {
        IfStmt { condition, then_branch, else_branch }
    }
}

impl PrintStmt {
    pub fn new(expression: Expr) -> (s: PrintStmt)
        ensures
            s == (PrintStmt { expression }),
    {
        PrintStmt { expression }
    }
}

impl ReturnStmt {
    pub fn new(keyword: Token, value: Option<Expr>) -> (s: ReturnStmt)
        ensures
            s == (ReturnStmt { keyword, value }),
    {
        ReturnStmt { keyword, value }
    }
}

impl VarStmt {
    pub fn new(name: Token, initializer: Option<Expr>) -> (s: VarStmt)
        ensures
            s == (VarStmt { name, initializer }),
    {
        VarStmt { name, initializer }
    }
}

impl WhileStmt {
    pub fn new(condition: Expr, body: Stmt) -> (s: WhileStmt)
        ensures
            s == (WhileStmt { condition, body }),
    {
        WhileStmt { condition, body }
    }
}


/// A function declaration, as a plain tree.
pub struct DeclarationView {
    pub name: Token,
    pub params: Seq<Token>,
    pub body: Seq<StmtView>,
}

/// A statement, as a plain tree: a list of statements is a sequence.
pub enum StmtView {
    Block { statements: Seq<StmtView> },
    Class { name: Token, methods: Seq<DeclarationView>, superclass: Option<VariableExpr> },
    Expression { expression: ExprView },
    Function { declaration: DeclarationView },
    If { condition: ExprView, then_branch: Box<StmtView>, else_branch: Option<Box<StmtView>> },
    Print { expression: ExprView },
    Return { keyword: Token, value: Option<ExprView> },
    Var { name: Token, initializer: Option<ExprView> },
    While { condition: ExprView, body: Box<StmtView> },
}

/// An optional expression, as a plain tree.
pub open spec fn optional_view(e: Option<Expr>) -> Option<ExprView> {
    match e {
        Some(x) => Some(x@),
        None => None,
    }
}

/// The plain tree of a function declaration.
pub open spec fn declaration_tree(f: FunctionStmt) -> DeclarationView
    decreases f,
{
    DeclarationView { name: f.name, params: f.params@, body: stmts_view(f.body@) }
}

/// The plain tree of a statement.
pub open spec fn stmt_tree(s: Stmt) -> StmtView
    decreases s,
{
    match s {
        Stmt::Block(s) => StmtView::Block { statements: stmts_view(s.statements@) },
        Stmt::Class(s) => StmtView::Class {
            name: s.name,
            methods: declarations_view(s.methods@),
            superclass: s.superclass,
        },
        Stmt::Expression(s) => StmtView::Expression { expression: s.expression@ },
        Stmt::Function(s) => StmtView::Function { declaration: declaration_tree(*s) },
        Stmt::If(s) => StmtView::If {
            condition: s.condition@,
            then_branch: Box::new(stmt_tree(s.then_branch)),
            else_branch: match s.else_branch {
                Some(e) => Some(Box::new(stmt_tree(e))),
                None => None,
            },
        },
        Stmt::Print(s) => StmtView::Print { expression: s.expression@ },
        Stmt::Return(s) => StmtView::Return { keyword: s.keyword, value: optional_view(s.value) },
        Stmt::Var(s) => StmtView::Var { name: s.name, initializer: optional_view(s.initializer) },
        Stmt::While(s) => StmtView::While {
            condition: s.condition@,
            body: Box::new(stmt_tree(s.body)),
        },
    }
}

/// The statements, each as a plain tree.
pub open spec fn stmts_view(stmts: Seq<Stmt>) -> Seq<StmtView>
    decreases stmts,
{
    if stmts.len() == 0 {
        Seq::empty()
    } else {
        stmts_view(stmts.drop_last()).push(stmt_tree(stmts.last()))
    }
}

/// The declarations, each as a plain tree.
pub open spec fn declarations_view(declarations: Seq<Rc<FunctionStmt>>) -> Seq<DeclarationView>
    decreases declarations,
{
    if declarations.len() == 0 {
        Seq::empty()
    } else {
        declarations_view(declarations.drop_last()).push(declaration_tree(*declarations.last()))
    }
}

impl View for FunctionStmt {
    type V = DeclarationView;

    open spec fn view(&self) -> DeclarationView {
        declaration_tree(*self)
    }
}

impl View for Stmt {
    type V = StmtView;

    open spec fn view(&self) -> StmtView {
        stmt_tree(*self)
    }
}

/// The trees of a list with one more statement are the trees of the list
/// with the tree of that statement.
pub proof fn lemma_stmts_view_push(stmts: Seq<Stmt>, s: Stmt)
    ensures
        stmts_view(stmts.push(s)) == stmts_view(stmts).push(s@),
{
    assert(stmts.push(s).drop_last() =~= stmts);
}

/// The trees of a list are as many as the list is long, each the tree of
/// the statement at its place.
pub proof fn lemma_stmts_view_index(stmts: Seq<Stmt>)
    ensures
        stmts_view(stmts).len() == stmts.len(),
        forall|i: int| 0 <= i < stmts.len() ==> (#[trigger] stmts_view(stmts)[i]) == stmts[i]@,
    decreases stmts.len(),
{
    if stmts.len() > 0 {
        lemma_stmts_view_index(stmts.drop_last());
    }
}

/// The trees of a list with one more declaration are the trees of the list
/// with the tree of that declaration.
pub proof fn lemma_declarations_view_push(declarations: Seq<Rc<FunctionStmt>>, d: Rc<FunctionStmt>)
    ensures
        declarations_view(declarations.push(d)) == declarations_view(declarations).push((*d)@),
{
    assert(declarations.push(d).drop_last() =~= declarations);
}

} // verus!
