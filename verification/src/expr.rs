//! Expressions and the values they evaluate to.

use crate::number::Number;
use crate::token::Token;
use vstd::prelude::*;

verus! {

/// A built-in callable.
#[derive(Clone, Copy, Debug, PartialEq, Eq, Structural)]
pub enum Native {
    /// `clock`: takes nothing, gives the interpreter's clock reading.
    Clock,
}

/// A value, as plain data: text by its characters, a number by its units,
/// and a function, class or instance by its place in the interpreter's store.
pub enum Value {
    Nil,
    Boolean(bool),
    Number(int),
    Text(Seq<char>),
    Function(int),
    NativeFunction(Native),
    Class(int),
    Instance(int),
}

/// A runtime value. A function, a class and an instance are held by their
/// index in the interpreter's store, so that every holder sees the same one.
#[derive(Debug, PartialEq)]
pub enum Literal {
    Nil,
    Boolean(bool),
    Number(Number),
    String(String),
    Function(usize),
    NativeFunction(Native),
    Class(usize),
    Instance(usize),
}

impl View for Literal {
    type V = Value;

    open spec fn view(&self) -> Value {
        match self {
            Literal::Nil => Value::Nil,
            Literal::Boolean(b) => Value::Boolean(*b),
            Literal::Number(n) => Value::Number(n.units as int),
            Literal::String(s) => Value::Text(s@),
            Literal::Function(f) => Value::Function(*f as int),
            Literal::NativeFunction(n) => Value::NativeFunction(*n),
            Literal::Class(c) => Value::Class(*c as int),
            Literal::Instance(i) => Value::Instance(*i as int),
        }
    }
}

impl Clone for Literal {
    fn clone(&self) -> (res: Literal)
        ensures
            res == *self,
    {
        match self {
            Literal::Nil => Literal::Nil,
            Literal::Boolean(b) => Literal::Boolean(*b),
            Literal::Number(n) => Literal::Number(*n),
            Literal::String(s) => Literal::String(s.clone()),
            Literal::Function(f) => Literal::Function(*f),
            Literal::NativeFunction(n) => Literal::NativeFunction(*n),
            Literal::Class(c) => Literal::Class(*c),
            Literal::Instance(i) => Literal::Instance(*i),
        }
    }
}

/// An expression. The four variable-shaped expressions (`Variable`,
/// `Assign`, `This`, `Super`) carry an `id` by which the resolver's bindings
/// find them again; the parser gives each a different one.
#[derive(Debug)]
pub enum Expr {
    Assign(Box<AssignExpr>),
    Binary(Box<BinaryExpr>),
    Call(Box<CallExpr>),
    Conditional(Box<ConditionalExpr>),
    Get(Box<GetExpr>),
    Grouping(Box<GroupingExpr>),
    Literal(Literal),
    Logical(Box<LogicalExpr>),
    SetField(Box<SetExpr>),
    Super(Box<SuperExpr>),
    This(Box<ThisExpr>),
    Unary(Box<UnaryExpr>),
    Variable(Box<VariableExpr>),
}

/// `name = value`.
#[derive(Debug)]
pub struct AssignExpr {
    pub id: usize,
    pub name: Token,
    pub value: Expr,
}

/// `left operator right`, for an arithmetic, comparison or equality operator.
#[derive(Debug)]
pub struct BinaryExpr {
    pub left: Expr,
    pub operator: Token,
    pub right: Expr,
}

/// `callee(arguments)`; `paren` is the closing parenthesis, which locates errors of the call.
#[derive(Debug)]
pub struct CallExpr {
    pub callee: Expr,
    pub paren: Token,
    pub arguments: Vec<Expr>,
}

/// `condition ? left : right`.
#[derive(Debug)]
pub struct ConditionalExpr {
    pub condition: Expr,
    pub left: Expr,
    pub right: Expr,
}

/// `object.name`.
#[derive(Debug)]
pub struct GetExpr {
    pub object: Expr,
    pub name: Token,
}

/// `(expression)`.
#[derive(Debug)]
pub struct GroupingExpr {
    pub expression: Expr,
}

/// `left or right`, or `left and right`.
#[derive(Debug)]
pub struct LogicalExpr {
    pub left: Expr,
    pub operator: Token,
    pub right: Expr,
}

/// `object.name = value`.
#[derive(Debug)]
pub struct SetExpr {
    pub object: Expr,
    pub name: Token,
    pub value: Expr,
}

/// `super.method`.
#[derive(Debug)]
pub struct SuperExpr {
    pub id: usize,
    pub keyword: Token,
    pub method: Token,
}

/// `this`.
#[derive(Debug)]
pub struct ThisExpr {
    pub id: usize,
    pub keyword: Token,
}

/// `operator right`, for `!` or `-`.
#[derive(Debug)]
pub struct UnaryExpr {
    pub operator: Token,
    pub right: Expr,
}

/// A use of the variable `name`.
#[derive(Debug)]
pub struct VariableExpr {
    pub id: usize,
    pub name: Token,
}

impl AssignExpr {
    pub fn new(id: usize, name: Token, value: Expr) -> (e: AssignExpr)
        ensures
            e == (AssignExpr { id, name, value }),
    {
        AssignExpr { id, name, value }
    }
}

impl BinaryExpr {
    pub fn new(left: Expr, operator: Token, right: Expr) -> (e: BinaryExpr)
        ensures
            e == (BinaryExpr { left, operator, right }),
    {
        BinaryExpr { left, operator, right }
    }
}

impl CallExpr {
    pub fn new(callee: Expr, paren: Token, arguments: Vec<Expr>) -> (e: CallExpr)
        ensures
            e == (CallExpr { callee, paren, arguments }),
    {
        CallExpr { callee, paren, arguments }
    }
}

impl ConditionalExpr {
    pub fn new(condition: Expr, left: Expr, right: Expr) -> (e: ConditionalExpr)
        ensures
            e == (ConditionalExpr { condition, left, right }),
    {
        ConditionalExpr { condition, left, right }
    }
}

impl GetExpr {
    pub fn new(name: Token, object: Expr) -> (e: GetExpr)
        ensures
            e == (GetExpr { object, name }),
    {
        GetExpr { object, name }
    }
}

impl GroupingExpr {
    pub fn new(expression: Expr) -> (e: GroupingExpr)
        ensures
            e == (GroupingExpr { expression }),
    {
        GroupingExpr { expression }
    }
}

impl LogicalExpr {
    pub fn new(left: Expr, operator: Token, right: Expr) -> (e: LogicalExpr)
        ensures
            e == (LogicalExpr { left, operator, right }),
    {
        LogicalExpr { left, operator, right }
    }
}

impl SetExpr {
    pub fn new(object: Expr, name: Token, value: Expr) -> (e: SetExpr)
        ensures
            e == (SetExpr { object, name, value }),
    {
        SetExpr { object, name, value }
    }
}

impl SuperExpr {
    pub fn new(id: usize, keyword: Token, method: Token) -> (e: SuperExpr)
        ensures
            e == (SuperExpr { id, keyword, method }),
    {
        SuperExpr { id, keyword, method }
    }
}

impl ThisExpr {
    pub fn new(id: usize, keyword: Token) -> (e: ThisExpr)
        ensures
            e == (ThisExpr { id, keyword }),
    {
        ThisExpr { id, keyword }
    }
}

impl UnaryExpr {
    pub fn new(operator: Token, right: Expr) -> (e: UnaryExpr)
        ensures
            e == (UnaryExpr { operator, right }),
    {
        UnaryExpr { operator, right }
    }
}

impl VariableExpr {
    pub fn new(id: usize, name: Token) -> (e: VariableExpr)
        ensures
            e == (VariableExpr { id, name }),
    {
        VariableExpr { id, name }
    }
}


/// An expression, as a plain tree: the arguments of a call are a sequence.
pub enum ExprView {
    Assign { id: usize, name: Token, value: Box<ExprView> },
    Binary { left: Box<ExprView>, operator: Token, right: Box<ExprView> },
    Call { callee: Box<ExprView>, paren: Token, arguments: Seq<ExprView> },
    Conditional { condition: Box<ExprView>, left: Box<ExprView>, right: Box<ExprView> },
    Get { object: Box<ExprView>, name: Token },
    Grouping { expression: Box<ExprView> },
    Literal { literal: Literal },
    Logical { left: Box<ExprView>, operator: Token, right: Box<ExprView> },
    SetField { object: Box<ExprView>, name: Token, value: Box<ExprView> },
    Super { id: usize, keyword: Token, method: Token },
    This { id: usize, keyword: Token },
    Unary { operator: Token, right: Box<ExprView> },
    Variable { id: usize, name: Token },
}

/// The plain tree of an expression.
pub open spec fn expr_tree(e: Expr) -> ExprView
    decreases e,
{
    match e {
        Expr::Assign(e) => ExprView::Assign {
            id: e.id,
            name: e.name,
            value: Box::new(expr_tree(e.value)),
        },
        Expr::Binary(e) => ExprView::Binary {
            left: Box::new(expr_tree(e.left)),
            operator: e.operator,
            right: Box::new(expr_tree(e.right)),
        },
        Expr::Call(e) => ExprView::Call {
            callee: Box::new(expr_tree(e.callee)),
            paren: e.paren,
            arguments: exprs_view(e.arguments@),
        },
        Expr::Conditional(e) => ExprView::Conditional {
            condition: Box::new(expr_tree(e.condition)),
            left: Box::new(expr_tree(e.left)),
            right: Box::new(expr_tree(e.right)),
        },
        Expr::Get(e) => ExprView::Get { object: Box::new(expr_tree(e.object)), name: e.name },
        Expr::Grouping(e) => ExprView::Grouping { expression: Box::new(expr_tree(e.expression)) },
        Expr::Literal(v) => ExprView::Literal { literal: v },
        Expr::Logical(e) => ExprView::Logical {
            left: Box::new(expr_tree(e.left)),
            operator: e.operator,
            right: Box::new(expr_tree(e.right)),
        },
        Expr::SetField(e) => ExprView::SetField {
            object: Box::new(expr_tree(e.object)),
            name: e.name,
            value: Box::new(expr_tree(e.value)),
        },
        Expr::Super(e) => ExprView::Super { id: e.id, keyword: e.keyword, method: e.method },
        Expr::This(e) => ExprView::This { id: e.id, keyword: e.keyword },
        Expr::Unary(e) => ExprView::Unary {
            operator: e.operator,
            right: Box::new(expr_tree(e.right)),
        },
        Expr::Variable(e) => ExprView::Variable { id: e.id, name: e.name },
    }
}

/// The expressions, each as a plain tree.
pub open spec fn exprs_view(exprs: Seq<Expr>) -> Seq<ExprView>
    decreases exprs,
{
    if exprs.len() == 0 {
        Seq::empty()
    } else {
        exprs_view(exprs.drop_last()).push(expr_tree(exprs.last()))
    }
}

impl View for Expr {
    type V = ExprView;

    open spec fn view(&self) -> ExprView {
        expr_tree(*self)
    }
}

/// The trees of a list with one more expression are the trees of the list
/// with the tree of that expression.
pub proof fn lemma_exprs_view_push(exprs: Seq<Expr>, e: Expr)
    ensures
        exprs_view(exprs.push(e)) == exprs_view(exprs).push(e@),
{
    assert(exprs.push(e).drop_last() =~= exprs);
}

/// The trees of a list are as many as the list is long, each the tree of
/// the expression at its place.
pub proof fn lemma_exprs_view_index(exprs: Seq<Expr>)
    ensures
        exprs_view(exprs).len() == exprs.len(),
        forall|i: int| 0 <= i < exprs.len() ==> (#[trigger] exprs_view(exprs)[i]) == exprs[i]@,
    decreases exprs.len(),
{
    if exprs.len() > 0 {
        lemma_exprs_view_index(exprs.drop_last());
    }
}

} // verus!
