//! The resolver: one pass over the statements that binds each use of a
//! variable to the scope that declares it.
//!
//! The pass keeps a stack of scopes, each a list of names that are declared
//! (`false`) or defined (`true`). For each variable-shaped expression whose
//! name a scope holds, it records in the interpreter how many scopes lie
//! between the use and that scope. A name that no scope holds is global and
//! gets no record. The first error ends the pass.

use crate::expr::Expr;
use crate::interpreter::{expression_id, Interpreter};
use crate::lox_result::{LoxResult, Outcome};
use crate::machine::Machine;
use crate::stmt::{ClassStmt, FunctionStmt, Stmt};
use crate::token::Token;
use std::rc::Rc;
use vstd::prelude::*;

verus! {

/// What kind of function the resolver is inside of.
#[derive(Clone, Copy, Debug, PartialEq, Eq, Structural)]
pub enum FunctionType {
    /// Not inside of any function.
    Outside,
    Function,
    Initializer,
    Method,
}

/// What kind of class the resolver is inside of.
#[derive(Clone, Copy, Debug, PartialEq, Eq, Structural)]
pub enum ClassType {
    /// Not inside of any class.
    Outside,
    Class,
    Subclass,
}

/// A name in a scope, as plain values: declared, and defined or not yet.
pub struct DeclaredView {
    pub name: Seq<char>,
    pub defined: bool,
}

/// The state of the pass, as plain values: the scopes, innermost last; the
/// depths recorded so far by expression id; and what the pass is inside of.
pub struct Resolution {
    pub scopes: Seq<Seq<DeclaredView>>,
    pub locals: Map<usize, usize>,
    pub function: FunctionType,
    pub class: ClassType,
}

/// A static error at `line`.
pub open spec fn error(line: int, message: Seq<char>) -> Outcome {
    Outcome::Error { line, message }
}

/// The first position at or after `from` at which `scope` holds `name`.
pub open spec fn position(scope: Seq<DeclaredView>, name: Seq<char>, from: int) -> Option<int>
    decreases scope.len() - from,
{
    if from < 0 || from >= scope.len() {
        None
    } else if scope[from].name == name {
        Some(from)
    } else {
        position(scope, name, from + 1)
    }
}

/// Whether `scope` holds `name`, and if so whether it is defined.
pub open spec fn state_of(scope: Seq<DeclaredView>, name: Seq<char>) -> Option<bool> {
    match position(scope, name, 0) {
        Some(i) => Some(scope[i].defined),
        None => None,
    }
}

/// The scope with `name` marked as `defined`.
pub open spec fn mark(scope: Seq<DeclaredView>, name: Seq<char>, defined: bool) -> Seq<
    DeclaredView,
> {
    match position(scope, name, 0) {
        Some(i) => scope.update(i, DeclaredView { name, defined }),
        None => scope.push(DeclaredView { name, defined }),
    }
}

/// The scopes with `name` marked as `defined` in the innermost one; as they
/// are where there is no scope.
pub open spec fn mark_innermost(scopes: Seq<Seq<DeclaredView>>, name: Seq<char>, defined: bool)
    -> Seq<Seq<DeclaredView>> {
    if scopes.len() == 0 {
        scopes
    } else {
        scopes.update(scopes.len() - 1, mark(scopes.last(), name, defined))
    }
}

/// The state with one more, empty scope.
pub open spec fn begin_scope(r: Resolution) -> Resolution {
    Resolution { scopes: r.scopes.push(Seq::empty()), ..r }
}

/// The state without its innermost scope.
pub open spec fn end_scope(r: Resolution) -> Resolution {
    if r.scopes.len() == 0 {
        r
    } else {
        Resolution { scopes: r.scopes.drop_last(), ..r }
    }
}

/// Declaring `name`: it is held by the innermost scope as not yet defined.
/// An error where that scope holds the name already. Nothing at global
/// level, where there is no scope.
pub open spec fn declare(r: Resolution, name: Token) -> Result<Resolution, Outcome> {
    if r.scopes.len() == 0 {
        Ok(r)
    } else if state_of(r.scopes.last(), name.lexeme@) is Some {
        Err(error(name.line as int, "Variable with this name already exists in this scope."@))
    } else {
        Ok(Resolution { scopes: mark_innermost(r.scopes, name.lexeme@, false), ..r })
    }
}

/// Defining `name`: the innermost scope holds it as defined.
pub open spec fn define(r: Resolution, name: Seq<char>) -> Resolution {
    Resolution { scopes: mark_innermost(r.scopes, name, true), ..r }
}

/// How many scopes lie between the innermost scope and the nearest scope,
/// `depth` or more scopes out, that holds `name`.
pub open spec fn depth_of(scopes: Seq<Seq<DeclaredView>>, name: Seq<char>, depth: nat) -> Option<
    nat,
>
    decreases scopes.len() - depth,
{
    if depth >= scopes.len() {
        None
    } else if state_of(scopes[scopes.len() - 1 - depth], name) is Some {
        Some(depth)
    } else {
        depth_of(scopes, name, depth + 1)
    }
}

/// Resolving the expression `id` named `name`: its depth is recorded where a
/// scope holds the name.
pub open spec fn resolve_local(r: Resolution, id: usize, name: Seq<char>) -> Resolution {
    match depth_of(r.scopes, name, 0) {
        Some(depth) => Resolution { locals: r.locals.insert(id, depth as usize), ..r },
        None => r,
    }
}

/// Resolving the use of a variable: an error where the innermost scope
/// holds the name as declared and not yet defined.
pub open spec fn resolve_variable(r: Resolution, id: usize, name: Token) -> Result<
    Resolution,
    Outcome,
> {
    if r.scopes.len() > 0 && state_of(r.scopes.last(), name.lexeme@) == Some(false) {
        Err(error(name.line as int, "Can't read local variable in its own initializer"@))
    } else {
        Ok(resolve_local(r, id, name.lexeme@))
    }
}

/// Resolving `this`: an error outside of a class.
pub open spec fn resolve_this(r: Resolution, id: usize, keyword: Token) -> Result<
    Resolution,
    Outcome,
> {
    if r.class == ClassType::Outside {
        Err(error(keyword.line as int, "Can't use 'this' outside of a class."@))
    } else {
        Ok(resolve_local(r, id, keyword.lexeme@))
    }
}

/// Resolving `super`: an error outside of a class, and in a class without a
/// superclass.
pub open spec fn resolve_super(r: Resolution, id: usize, keyword: Token) -> Result<
    Resolution,
    Outcome,
> {
    if r.class == ClassType::Outside {
        Err(error(keyword.line as int, "Can't use 'super' outside of a class."@))
    } else if r.class != ClassType::Subclass {
        Err(error(keyword.line as int, "Can't use 'super' in a class with no superclass."@))
    } else {
        Ok(resolve_local(r, id, keyword.lexeme@))
    }
}

/// Resolving an expression.
pub open spec fn resolve_expr(r: Resolution, e: Expr) -> Result<Resolution, Outcome>
    decreases 0nat, e, 0nat,
{
    match e {
        Expr::Assign(a) => match resolve_expr(r, a.value) {
            Ok(after) => Ok(resolve_local(after, a.id, a.name.lexeme@)),
            Err(o) => Err(o),
        },
        Expr::Binary(b) => match resolve_expr(r, b.left) {
            Ok(after) => resolve_expr(after, b.right),
            Err(o) => Err(o),
        },
        Expr::Call(c) => match resolve_expr(r, c.callee) {
            Ok(after) => resolve_exprs(after, c.arguments@, 0),
            Err(o) => Err(o),
        },
        Expr::Conditional(c) => match resolve_expr(r, c.condition) {
            Ok(after) => match resolve_expr(after, c.left) {
                Ok(then) => resolve_expr(then, c.right),
                Err(o) => Err(o),
            },
            Err(o) => Err(o),
        },
        Expr::Get(g) => resolve_expr(r, g.object),
        Expr::Grouping(g) => resolve_expr(r, g.expression),
        Expr::Literal(_) => Ok(r),
        Expr::Logical(l) => match resolve_expr(r, l.left) {
            Ok(after) => resolve_expr(after, l.right),
            Err(o) => Err(o),
        },
        Expr::SetField(s) => match resolve_expr(r, s.value) {
            Ok(after) => resolve_expr(after, s.object),
            Err(o) => Err(o),
        },
        Expr::Super(s) => resolve_super(r, s.id, s.keyword),
        Expr::This(t) => resolve_this(r, t.id, t.keyword),
        Expr::Unary(u) => resolve_expr(r, u.right),
        Expr::Variable(v) => resolve_variable(r, v.id, v.name),
    }
}

/// Resolving the expressions from `from` on, in order.
pub open spec fn resolve_exprs(r: Resolution, exprs: Seq<Expr>, from: int) -> Result<
    Resolution,
    Outcome,
>
    decreases 0nat, exprs, exprs.len() - from,
{
    if 0 <= from < exprs.len() {
        match resolve_expr(r, exprs[from]) {
            Ok(after) => resolve_exprs(after, exprs, from + 1),
            Err(o) => Err(o),
        }
    } else {
        Ok(r)
    }
}

/// Declaring and defining the parameters from `from` on.
pub open spec fn declare_parameters(r: Resolution, params: Seq<Token>, from: int) -> Result<
    Resolution,
    Outcome,
>
    decreases params.len() - from,
{
    if 0 <= from < params.len() {
        match declare(r, params[from]) {
            Ok(declared) => declare_parameters(
                define(declared, params[from].lexeme@),
                params,
                from + 1,
            ),
            Err(o) => Err(o),
        }
    } else {
        Ok(r)
    }
}

/// Resolving a function of kind `kind`: in a scope of its own, the
/// parameters are declared and defined and the body is resolved.
pub open spec fn resolve_function(r: Resolution, f: FunctionStmt, kind: FunctionType) -> Result<
    Resolution,
    Outcome,
>
    decreases 1nat, f, 0nat,
{
    match declare_parameters(
        begin_scope(Resolution { function: kind, ..r }),
        f.params@,
        0,
    ) {
        Ok(declared) => match resolve_stmts(declared, f.body@, 0) {
            Ok(after) => Ok(Resolution { function: r.function, ..end_scope(after) }),
            Err(o) => Err(o),
        },
        Err(o) => Err(o),
    }
}

/// Resolving the methods from `from` on: each as a method, or as an
/// initializer if it is named `init`.
pub open spec fn resolve_methods(r: Resolution, methods: Seq<Rc<FunctionStmt>>, from: int)
    -> Result<Resolution, Outcome>
    decreases 1nat, methods, methods.len() - from,
{
    if 0 <= from < methods.len() {
        match resolve_function(
            r,
            *methods[from],
            if methods[from].name.lexeme@ == "init"@ {
                FunctionType::Initializer
            } else {
                FunctionType::Method
            },
        ) {
            Ok(after) => resolve_methods(after, methods, from + 1),
            Err(o) => Err(o),
        }
    } else {
        Ok(r)
    }
}

/// The state in which the superclass clause of `c` is resolved: an error
/// where the class names itself.
pub open spec fn resolve_superclass(r: Resolution, c: ClassStmt) -> Result<Resolution, Outcome> {
    match c.superclass {
        Some(parent) => if parent.name.lexeme@ == c.name.lexeme@ {
            Err(error(parent.name.line as int, "A class can't inherit from itself."@))
        } else {
            match resolve_variable(
                Resolution { class: ClassType::Subclass, ..r },
                parent.id,
                parent.name,
            ) {
                Ok(after) => Ok(define(begin_scope(after), "super"@)),
                Err(o) => Err(o),
            }
        },
        None => Ok(Resolution { class: ClassType::Class, ..r }),
    }
}

/// Resolving a class declaration: the name is declared and defined; the
/// superclass, where there is one, is resolved and a scope that holds
/// `super` begun; in a scope that holds `this` the methods are resolved.
pub open spec fn resolve_class(r: Resolution, c: ClassStmt) -> Result<Resolution, Outcome>
    decreases 1nat, c, 0nat,
{
    match declare(r, c.name) {
        Ok(declared) => match resolve_superclass(define(declared, c.name.lexeme@), c) {
            Ok(inside) => match resolve_methods(
                define(begin_scope(inside), "this"@),
                c.methods@,
                0,
            ) {
                Ok(after) => {
                    let outside = end_scope(after);
                    Ok(
                        Resolution {
                            class: r.class,
                            ..if c.superclass is Some {
                                end_scope(outside)
                            } else {
                                outside
                            }
                        },
                    )
                },
                Err(o) => Err(o),
            },
            Err(o) => Err(o),
        },
        Err(o) => Err(o),
    }
}

/// Resolving a statement.
pub open spec fn resolve_stmt(r: Resolution, s: Stmt) -> Result<Resolution, Outcome>
    decreases 1nat, s, 0nat,
{
    match s {
        Stmt::Block(b) => match resolve_stmts(begin_scope(r), b.statements@, 0) {
            Ok(after) => Ok(end_scope(after)),
            Err(o) => Err(o),
        },
        Stmt::Class(c) => resolve_class(r, *c),
        Stmt::Expression(x) => resolve_expr(r, x.expression),
        Stmt::Function(f) => match declare(r, f.name) {
            Ok(declared) => resolve_function(
                define(declared, f.name.lexeme@),
                *f,
                FunctionType::Function,
            ),
            Err(o) => Err(o),
        },
        Stmt::If(i) => match resolve_expr(r, i.condition) {
            Ok(after) => match resolve_stmt(after, i.then_branch) {
                Ok(then) => match i.else_branch {
                    Some(otherwise) => resolve_stmt(then, otherwise),
                    None => Ok(then),
                },
                Err(o) => Err(o),
            },
            Err(o) => Err(o),
        },
        Stmt::Print(p) => resolve_expr(r, p.expression),
        Stmt::Return(x) => if r.function == FunctionType::Outside {
            Err(error(x.keyword.line as int, "Cannot return from top-level code"@))
        } else {
            match x.value {
                Some(value) => if r.function == FunctionType::Initializer {
                    Err(error(x.keyword.line as int, "Can't return a value from an initializer."@))
                } else {
                    resolve_expr(r, value)
                },
                None => Ok(r),
            }
        },
        Stmt::Var(v) => match declare(r, v.name) {
            Ok(declared) => match v.initializer {
                Some(initializer) => match resolve_expr(declared, initializer) {
                    Ok(after) => Ok(define(after, v.name.lexeme@)),
                    Err(o) => Err(o),
                },
                None => Ok(define(declared, v.name.lexeme@)),
            },
            Err(o) => Err(o),
        },
        Stmt::While(w) => match resolve_expr(r, w.condition) {
            Ok(after) => resolve_stmt(after, w.body),
            Err(o) => Err(o),
        },
    }
}

/// Resolving the statements from `from` on, in order.
pub open spec fn resolve_stmts(r: Resolution, stmts: Seq<Stmt>, from: int) -> Result<
    Resolution,
    Outcome,
>
    decreases 1nat, stmts, stmts.len() - from,
{
    if 0 <= from < stmts.len() {
        match resolve_stmt(r, stmts[from]) {
            Ok(after) => resolve_stmts(after, stmts, from + 1),
            Err(o) => Err(o),
        }
    } else {
        Ok(r)
    }
}

/// Where a scope holds the name of a resolved expression, the depth
/// recorded for it tells how far out the nearest such scope lies, and is
/// less than the number of scopes at the point of use. Where no scope holds
/// the name, nothing is recorded.
pub proof fn lemma_resolved_depth(r: Resolution, id: usize, name: Seq<char>)
    requires
        r.scopes.len() <= usize::MAX,
    ensures
        match depth_of(r.scopes, name, 0) {
            Some(depth) => {
                &&& resolve_local(r, id, name).locals.dom().contains(id)
                &&& resolve_local(r, id, name).locals[id] == depth
                &&& depth < r.scopes.len()
                &&& state_of(r.scopes[r.scopes.len() - 1 - depth], name) is Some
                &&& forall|nearer: int|
                    0 <= nearer < depth ==> state_of(
                        #[trigger] r.scopes[r.scopes.len() - 1 - nearer],
                        name,
                    ) is None
            },
            None => resolve_local(r, id, name) == r,
        },
{
    lemma_depth_within_scopes(r.scopes, name, 0);
    lemma_depth_is_nearest(r.scopes, name, 0);
}

/// No scope nearer than the depth found holds the name.
pub proof fn lemma_depth_is_nearest(scopes: Seq<Seq<DeclaredView>>, name: Seq<char>, from: nat)
    ensures
        match depth_of(scopes, name, from) {
            Some(depth) => forall|nearer: int|
                from <= nearer < depth ==> state_of(
                    #[trigger] scopes[scopes.len() - 1 - nearer],
                    name,
                ) is None,
            None => true,
        },
    decreases scopes.len() - from,
{
    if from < scopes.len() && !(state_of(scopes[scopes.len() - 1 - from], name) is Some) {
        lemma_depth_is_nearest(scopes, name, from + 1);
    }
}

/// Returning a value from an initializer is a static error, and so is any
/// `return` outside of a function.
pub proof fn lemma_return_is_checked(r: Resolution, s: Stmt)
    requires
        s is Return,
    ensures
        r.function == FunctionType::Outside ==> resolve_stmt(r, s) is Err,
        r.function == FunctionType::Initializer && s->Return_0.value is Some ==> resolve_stmt(
            r,
            s,
        ) is Err,
{
}

/// Whatever is resolved, a recorded depth is less than the number of scopes
/// at the point of use.
pub proof fn lemma_depth_within_scopes(scopes: Seq<Seq<DeclaredView>>, name: Seq<char>, from: nat)
    ensures
        match depth_of(scopes, name, from) {
            Some(depth) => from <= depth < scopes.len() && state_of(
                scopes[scopes.len() - 1 - depth],
                name,
            ) is Some,
            None => true,
        },
    decreases scopes.len() - from,
{
    if from < scopes.len() && !(state_of(scopes[scopes.len() - 1 - from], name) is Some) {
        lemma_depth_within_scopes(scopes, name, from + 1);
    }
}


/// A name in a scope: declared, and defined or not yet.
#[derive(Debug)]
pub struct Declared {
    pub name: String,
    pub defined: bool,
}

impl View for Declared {
    type V = DeclaredView;

    open spec fn view(&self) -> DeclaredView {
        DeclaredView { name: self.name@, defined: self.defined }
    }
}

/// A scope, as plain values.
pub open spec fn scope_view(scope: Seq<Declared>) -> Seq<DeclaredView> {
    Seq::new(scope.len(), |i: int| scope[i]@)
}

/// The scopes, as plain values.
pub open spec fn scopes_view(scopes: Seq<Vec<Declared>>) -> Seq<Seq<DeclaredView>> {
    Seq::new(scopes.len(), |i: int| scope_view(scopes[i]@))
}

/// Whether the interpreter's state `after` is `before` but for the depths
/// recorded.
pub open spec fn records_only(before: Machine, after: Machine) -> bool {
    after == (Machine { locals: after.locals, ..before })
}

/// Where `scope` holds `name`, if it does.
fn find(scope: &Vec<Declared>, name: &str) -> (found: Option<usize>)
    ensures
        match found {
            Some(i) => position(scope_view(scope@), name@, 0) == Some(i as int) && i < scope.len(),
            None => position(scope_view(scope@), name@, 0) is None,
        },
{
    let wanted = String::from_str(name);
    let mut i: usize = 0;
    while i < scope.len()
        invariant
            i <= scope.len(),
            wanted@ == name@,
            position(scope_view(scope@), name@, i as int) == position(scope_view(scope@), name@, 0),
        decreases scope.len() - i,
    {
        if scope[i].name == wanted {
            return Some(i);
        }
        i += 1;
    }
    None
}

/// Whether `scope` holds `name`, and if so whether it is defined.
fn state(scope: &Vec<Declared>, name: &str) -> (found: Option<bool>)
    ensures
        found == state_of(scope_view(scope@), name@),
{
    match find(scope, name) {
        Some(i) => Some(scope[i].defined),
        None => None,
    }
}

/// Marks `name` as `defined` in `scope`.
fn mark_in(scope: &mut Vec<Declared>, name: &str, defined: bool)
    ensures
        scope_view(final(scope)@) == mark(scope_view(old(scope)@), name@, defined),
{
    let entry = Declared { name: String::from_str(name), defined };
    match find(scope, name) {
        Some(i) => {
            scope.set(i, entry);
            assert(scope_view(scope@) =~= scope_view(old(scope)@).update(i as int, entry@));
        },
        None => {
            scope.push(entry);
            assert(scope_view(scope@) =~= scope_view(old(scope)@).push(entry@));
        },
    }
}

/// The resolver: the interpreter that it records in, the stack of scopes,
/// and what it is inside of.
pub struct Resolver<'a> {
    pub interpreter: &'a mut Interpreter,
    pub scopes: Vec<Vec<Declared>>,
    pub current_function: FunctionType,
    pub current_class: ClassType,
}

impl<'a> Resolver<'a> {
    /// The state of the pass, as plain values.
    pub open spec fn model(&self) -> Resolution {
        Resolution {
            scopes: scopes_view(self.scopes@),
            locals: self.interpreter@.locals,
            function: self.current_function,
            class: self.current_class,
        }
    }

    /// A resolver at global level, outside of any function and class, that
    /// records in `interpreter`.
    pub fn new(interpreter: &'a mut Interpreter) -> (resolver: Resolver<'a>)
        ensures
            *resolver.interpreter == *old(interpreter),
            *final(resolver.interpreter) == *final(interpreter),
            resolver.model() == (Resolution {
                scopes: Seq::empty(),
                locals: old(interpreter)@.locals,
                function: FunctionType::Outside,
                class: ClassType::Outside,
            }),
    {
        let resolver = Resolver {
            interpreter,
            scopes: Vec::new(),
            current_function: FunctionType::Outside,
            current_class: ClassType::Outside,
        };
        assert(resolver.model().scopes =~= Seq::empty());
        resolver
    }

    /// Begins a scope.
    pub fn begin_scope(&mut self)
        ensures
            *final(self).interpreter == *old(self).interpreter,
            *final(final(self).interpreter) == *final(old(self).interpreter),
            final(self).model() == begin_scope(old(self).model()),
    {
        let fresh: Vec<Declared> = Vec::new();
        assert(scope_view(fresh@) =~= Seq::empty());
        self.scopes.push(fresh);
        assert(scopes_view(self.scopes@) =~= scopes_view(old(self).scopes@).push(Seq::empty()));
    }

    /// Ends the innermost scope.
    pub fn end_scope(&mut self)
        ensures
            *final(self).interpreter == *old(self).interpreter,
            *final(final(self).interpreter) == *final(old(self).interpreter),
            final(self).model() == end_scope(old(self).model()),
    {
        if self.scopes.len() > 0 {
            self.scopes.pop();
            assert(scopes_view(self.scopes@) =~= scopes_view(old(self).scopes@).drop_last());
        }
    }

    /// Marks `name` as `defined` in the innermost scope.
    fn mark(&mut self, name: &str, defined: bool)
        ensures
            *final(self).interpreter == *old(self).interpreter,
            *final(final(self).interpreter) == *final(old(self).interpreter),
            final(self).model() == (Resolution {
                scopes: mark_innermost(old(self).model().scopes, name@, defined),
                ..old(self).model()
            }),
    {
        let n = self.scopes.len();
        if n > 0 {
            mark_in(&mut self.scopes[n - 1], name, defined);
            assert(scopes_view(self.scopes@) =~= mark_innermost(
                scopes_view(old(self).scopes@),
                name@,
                defined,
            ));
        }
    }

    /// Declares `name` in the innermost scope.
    fn declare(&mut self, name: &Token) -> (r: Result<(), LoxResult>)
        ensures
            *final(self).interpreter == *old(self).interpreter,
            *final(final(self).interpreter) == *final(old(self).interpreter),
            match r {
                Ok(_) => declare(old(self).model(), *name) == Ok::<Resolution, Outcome>(
                    final(self).model(),
                ),
                Err(e) => declare(old(self).model(), *name) == Err::<Resolution, Outcome>(e@),
            },
    {
        let n = self.scopes.len();
        if n == 0 {
            return Ok(());
        }
        if state(&self.scopes[n - 1], name.lexeme.as_str()).is_some() {
            return Err(
                LoxResult::new_error(
                    name.line,
                    "Variable with this name already exists in this scope.",
                ),
            );
        }
        self.mark(name.lexeme.as_str(), false);
        Ok(())
    }

    /// Defines `name` in the innermost scope.
    fn define(&mut self, name: &str)
        ensures
            *final(self).interpreter == *old(self).interpreter,
            *final(final(self).interpreter) == *final(old(self).interpreter),
            final(self).model() == define(old(self).model(), name@),
    {
        self.mark(name, true);
    }

    /// How many scopes lie between the innermost scope and the nearest
    /// scope that holds `name`.
    fn depth_of(&self, name: &str) -> (found: Option<usize>)
        ensures
            match found {
                Some(depth) => depth_of(self.model().scopes, name@, 0) == Some(depth as nat),
                None => depth_of(self.model().scopes, name@, 0) is None,
            },
    {
        let n = self.scopes.len();
        let mut depth: usize = 0;
        while depth < n
            invariant
                depth <= n == self.scopes.len(),
                depth_of(scopes_view(self.scopes@), name@, depth as nat) == depth_of(
                    scopes_view(self.scopes@),
                    name@,
                    0,
                ),
            decreases n - depth,
        {
            if state(&self.scopes[n - 1 - depth], name).is_some() {
                return Some(depth);
            }
            depth += 1;
        }
        None
    }

    /// Records the depth of the variable-shaped expression `expr`, named
    /// `name`, where a scope holds the name.
    fn resolve_local(&mut self, expr: &Expr, name: &str)
        requires
            expression_id(*expr) is Some,
        ensures
            *final(final(self).interpreter) == *final(old(self).interpreter),
            records_only(old(self).interpreter@, final(self).interpreter@),
            final(self).interpreter.fuel() == old(self).interpreter.fuel(),
            final(self).model() == resolve_local(
                old(self).model(),
                expression_id(*expr)->0,
                name@,
            ),
    {
        match self.depth_of(name) {
            Some(depth) => {
                self.interpreter.resolve(expr, depth);
            },
            None => {},
        }
    }

    /// Resolves an expression.
    pub fn resolve_expr(&mut self, expr: &Expr) -> (r: Result<(), LoxResult>)
        ensures
            *final(final(self).interpreter) == *final(old(self).interpreter),
            records_only(old(self).interpreter@, final(self).interpreter@),
            final(self).interpreter.fuel() == old(self).interpreter.fuel(),
            match r {
                Ok(_) => resolve_expr(old(self).model(), *expr) == Ok::<Resolution, Outcome>(
                    final(self).model(),
                ),
                Err(e) => resolve_expr(old(self).model(), *expr) == Err::<Resolution, Outcome>(e@),
            },
        decreases 0nat, expr, 0nat,
    {
        match expr {
            Expr::Assign(a) => match self.resolve_expr(&a.value) {
                Ok(_) => {
                    self.resolve_local(expr, a.name.lexeme.as_str());
                    Ok(())
                },
                Err(e) => Err(e),
            },
            Expr::Binary(b) => match self.resolve_expr(&b.left) {
                Ok(_) => self.resolve_expr(&b.right),
                Err(e) => Err(e),
            },
            Expr::Call(c) => match self.resolve_expr(&c.callee) {
                Ok(_) => self.resolve_exprs(&c.arguments),
                Err(e) => Err(e),
            },
            Expr::Conditional(c) => match self.resolve_expr(&c.condition) {
                Ok(_) => match self.resolve_expr(&c.left) {
                    Ok(_) => self.resolve_expr(&c.right),
                    Err(e) => Err(e),
                },
                Err(e) => Err(e),
            },
            Expr::Get(g) => self.resolve_expr(&g.object),
            Expr::Grouping(g) => self.resolve_expr(&g.expression),
            Expr::Literal(_) => Ok(()),
            Expr::Logical(l) => match self.resolve_expr(&l.left) {
                Ok(_) => self.resolve_expr(&l.right),
                Err(e) => Err(e),
            },
            Expr::SetField(s) => match self.resolve_expr(&s.value) {
                Ok(_) => self.resolve_expr(&s.object),
                Err(e) => Err(e),
            },
            Expr::Super(s) => {
                if self.current_class == ClassType::Outside {
                    Err(
                        LoxResult::new_error(
                            s.keyword.line,
                            "Can't use 'super' outside of a class.",
                        ),
                    )
                } else if self.current_class != ClassType::Subclass {
                    Err(
                        LoxResult::new_error(
                            s.keyword.line,
                            "Can't use 'super' in a class with no superclass.",
                        ),
                    )
                } else {
                    self.resolve_local(expr, s.keyword.lexeme.as_str());
                    Ok(())
                }
            },
            Expr::This(t) => {
                if self.current_class == ClassType::Outside {
                    Err(LoxResult::new_error(t.keyword.line, "Can't use 'this' outside of a class."))
                } else {
                    self.resolve_local(expr, t.keyword.lexeme.as_str());
                    Ok(())
                }
            },
            Expr::Unary(u) => self.resolve_expr(&u.right),
            Expr::Variable(v) => self.resolve_variable(expr, &v.name),
        }
    }

    /// Resolves the use of the variable `expr`, named `name`.
    fn resolve_variable(&mut self, expr: &Expr, name: &Token) -> (r: Result<(), LoxResult>)
        requires
            expression_id(*expr) is Some,
        ensures
            *final(final(self).interpreter) == *final(old(self).interpreter),
            records_only(old(self).interpreter@, final(self).interpreter@),
            final(self).interpreter.fuel() == old(self).interpreter.fuel(),
            match r {
                Ok(_) => resolve_variable(old(self).model(), expression_id(*expr)->0, *name)
                    == Ok::<Resolution, Outcome>(final(self).model()),
                Err(e) => resolve_variable(old(self).model(), expression_id(*expr)->0, *name)
                    == Err::<Resolution, Outcome>(e@),
            },
    {
        let n = self.scopes.len();
        if n > 0 {
            match state(&self.scopes[n - 1], name.lexeme.as_str()) {
                Some(false) => {
                    return Err(
                        LoxResult::new_error(
                            name.line,
                            "Can't read local variable in its own initializer",
                        ),
                    );
                },
                _ => {},
            }
        }
        self.resolve_local(expr, name.lexeme.as_str());
        Ok(())
    }

    /// Resolves expressions in order.
    fn resolve_exprs(&mut self, exprs: &Vec<Expr>) -> (r: Result<(), LoxResult>)
        ensures
            *final(final(self).interpreter) == *final(old(self).interpreter),
            records_only(old(self).interpreter@, final(self).interpreter@),
            final(self).interpreter.fuel() == old(self).interpreter.fuel(),
            match r {
                Ok(_) => resolve_exprs(old(self).model(), exprs@, 0) == Ok::<Resolution, Outcome>(
                    final(self).model(),
                ),
                Err(e) => resolve_exprs(old(self).model(), exprs@, 0) == Err::<
                    Resolution,
                    Outcome,
                >(e@),
            },
        decreases 0nat, exprs@, exprs@.len(),
    {
        let mut i: usize = 0;
        while i < exprs.len()
            invariant
                i <= exprs.len(),
                *final(self.interpreter) == *final(old(self).interpreter),
                records_only(old(self).interpreter@, self.interpreter@),
                self.interpreter.fuel() == old(self).interpreter.fuel(),
                resolve_exprs(self.model(), exprs@, i as int) == resolve_exprs(
                    old(self).model(),
                    exprs@,
                    0,
                ),
            decreases exprs.len() - i,
        {
            match self.resolve_expr(&exprs[i]) {
                Ok(_) => {},
                Err(e) => {
                    return Err(e);
                },
            }
            i += 1;
        }
        Ok(())
    }

    /// Declares and defines the parameters.
    fn declare_parameters(&mut self, params: &Vec<Token>) -> (r: Result<(), LoxResult>)
        ensures
            *final(self).interpreter == *old(self).interpreter,
            *final(final(self).interpreter) == *final(old(self).interpreter),
            match r {
                Ok(_) => declare_parameters(old(self).model(), params@, 0) == Ok::<
                    Resolution,
                    Outcome,
                >(final(self).model()),
                Err(e) => declare_parameters(old(self).model(), params@, 0) == Err::<
                    Resolution,
                    Outcome,
                >(e@),
            },
    {
        let mut i: usize = 0;
        while i < params.len()
            invariant
                i <= params.len(),
                *self.interpreter == *old(self).interpreter,
                *final(self.interpreter) == *final(old(self).interpreter),
                declare_parameters(self.model(), params@, i as int) == declare_parameters(
                    old(self).model(),
                    params@,
                    0,
                ),
            decreases params.len() - i,
        {
            match self.declare(&params[i]) {
                Ok(_) => {},
                Err(e) => {
                    return Err(e);
                },
            }
            self.define(params[i].lexeme.as_str());
            i += 1;
        }
        Ok(())
    }

    /// Resolves a function of kind `kind`.
    pub fn resolve_function(&mut self, f: &FunctionStmt, kind: FunctionType) -> (r: Result<
        (),
        LoxResult,
    >)
        ensures
            *final(final(self).interpreter) == *final(old(self).interpreter),
            records_only(old(self).interpreter@, final(self).interpreter@),
            final(self).interpreter.fuel() == old(self).interpreter.fuel(),
            match r {
                Ok(_) => resolve_function(old(self).model(), *f, kind) == Ok::<
                    Resolution,
                    Outcome,
                >(final(self).model()),
                Err(e) => resolve_function(old(self).model(), *f, kind) == Err::<
                    Resolution,
                    Outcome,
                >(e@),
            },
        decreases 1nat, f, 0nat,
    {
        let enclosing = self.current_function;
        self.current_function = kind;
        self.begin_scope();
        match self.declare_parameters(&f.params) {
            Ok(_) => {},
            Err(e) => {
                return Err(e);
            },
        }
        match self.resolve_list(&f.body) {
            Ok(_) => {},
            Err(e) => {
                return Err(e);
            },
        }
        self.end_scope();
        self.current_function = enclosing;
        Ok(())
    }

    /// Resolves the methods of a class in order.
    fn resolve_methods(&mut self, methods: &Vec<Rc<FunctionStmt>>) -> (r: Result<(), LoxResult>)
        ensures
            *final(final(self).interpreter) == *final(old(self).interpreter),
            records_only(old(self).interpreter@, final(self).interpreter@),
            final(self).interpreter.fuel() == old(self).interpreter.fuel(),
            match r {
                Ok(_) => resolve_methods(old(self).model(), methods@, 0) == Ok::<
                    Resolution,
                    Outcome,
                >(final(self).model()),
                Err(e) => resolve_methods(old(self).model(), methods@, 0) == Err::<
                    Resolution,
                    Outcome,
                >(e@),
            },
        decreases 1nat, methods@, methods@.len(),
    {
        let mut i: usize = 0;
        let init = String::from_str("init");
        while i < methods.len()
            invariant
                i <= methods.len(),
                init@ == "init"@,
                *final(self.interpreter) == *final(old(self).interpreter),
                records_only(old(self).interpreter@, self.interpreter@),
                self.interpreter.fuel() == old(self).interpreter.fuel(),
                resolve_methods(self.model(), methods@, i as int) == resolve_methods(
                    old(self).model(),
                    methods@,
                    0,
                ),
            decreases methods.len() - i,
        {
            let kind = if methods[i].name.lexeme == init {
                FunctionType::Initializer
            } else {
                FunctionType::Method
            };
            match self.resolve_function(&methods[i], kind) {
                Ok(_) => {},
                Err(e) => {
                    return Err(e);
                },
            }
            i += 1;
        }
        Ok(())
    }

    /// Resolves the superclass clause of a class, if it has one.
    fn resolve_superclass(&mut self, c: &ClassStmt) -> (r: Result<(), LoxResult>)
        ensures
            *final(final(self).interpreter) == *final(old(self).interpreter),
            records_only(old(self).interpreter@, final(self).interpreter@),
            final(self).interpreter.fuel() == old(self).interpreter.fuel(),
            match r {
                Ok(_) => resolve_superclass(old(self).model(), *c) == Ok::<Resolution, Outcome>(
                    final(self).model(),
                ),
                Err(e) => resolve_superclass(old(self).model(), *c) == Err::<
                    Resolution,
                    Outcome,
                >(e@),
            },
    {
        match &c.superclass {
            Some(parent) => {
                if parent.name.lexeme == c.name.lexeme {
                    return Err(
                        LoxResult::new_error(
                            parent.name.line,
                            "A class can't inherit from itself.",
                        ),
                    );
                }
                self.current_class = ClassType::Subclass;
                let used = Expr::Variable(
                    Box::new(crate::expr::VariableExpr::new(parent.id, parent.name.clone())),
                );
                match self.resolve_variable(&used, &parent.name) {
                    Ok(_) => {},
                    Err(e) => {
                        return Err(e);
                    },
                }
                self.begin_scope();
                self.define("super");
                Ok(())
            },
            None => {
                self.current_class = ClassType::Class;
                Ok(())
            },
        }
    }

    /// Resolves a class declaration.
    fn resolve_class(&mut self, c: &ClassStmt) -> (r: Result<(), LoxResult>)
        ensures
            *final(final(self).interpreter) == *final(old(self).interpreter),
            records_only(old(self).interpreter@, final(self).interpreter@),
            final(self).interpreter.fuel() == old(self).interpreter.fuel(),
            match r {
                Ok(_) => resolve_class(old(self).model(), *c) == Ok::<Resolution, Outcome>(
                    final(self).model(),
                ),
                Err(e) => resolve_class(old(self).model(), *c) == Err::<Resolution, Outcome>(e@),
            },
        decreases 1nat, c, 0nat,
    {
        let enclosing = self.current_class;
        match self.declare(&c.name) {
            Ok(_) => {},
            Err(e) => {
                return Err(e);
            },
        }
        self.define(c.name.lexeme.as_str());
        match self.resolve_superclass(c) {
            Ok(_) => {},
            Err(e) => {
                return Err(e);
            },
        }
        self.begin_scope();
        self.define("this");
        match self.resolve_methods(&c.methods) {
            Ok(_) => {},
            Err(e) => {
                return Err(e);
            },
        }
        self.end_scope();
        if c.superclass.is_some() {
            self.end_scope();
        }
        self.current_class = enclosing;
        Ok(())
    }

    /// Resolves a statement.
    fn resolve_stmt(&mut self, s: &Stmt) -> (r: Result<(), LoxResult>)
        ensures
            *final(final(self).interpreter) == *final(old(self).interpreter),
            records_only(old(self).interpreter@, final(self).interpreter@),
            final(self).interpreter.fuel() == old(self).interpreter.fuel(),
            match r {
                Ok(_) => resolve_stmt(old(self).model(), *s) == Ok::<Resolution, Outcome>(
                    final(self).model(),
                ),
                Err(e) => resolve_stmt(old(self).model(), *s) == Err::<Resolution, Outcome>(e@),
            },
        decreases 1nat, s, 0nat,
    {
        match s {
            Stmt::Block(b) => {
                self.begin_scope();
                match self.resolve_list(&b.statements) {
                    Ok(_) => {
                        self.end_scope();
                        Ok(())
                    },
                    Err(e) => Err(e),
                }
            },
            Stmt::Class(c) => self.resolve_class(c),
            Stmt::Expression(x) => self.resolve_expr(&x.expression),
            Stmt::Function(f) => match self.declare(&f.name) {
                Ok(_) => {
                    self.define(f.name.lexeme.as_str());
                    self.resolve_function(f, FunctionType::Function)
                },
                Err(e) => Err(e),
            },
            Stmt::If(i) => match self.resolve_expr(&i.condition) {
                Ok(_) => match self.resolve_stmt(&i.then_branch) {
                    Ok(_) => match &i.else_branch {
                        Some(otherwise) => self.resolve_stmt(otherwise),
                        None => Ok(()),
                    },
                    Err(e) => Err(e),
                },
                Err(e) => Err(e),
            },
            Stmt::Print(p) => self.resolve_expr(&p.expression),
            Stmt::Return(x) => {
                if self.current_function == FunctionType::Outside {
                    return Err(
                        LoxResult::new_error(x.keyword.line, "Cannot return from top-level code"),
                    );
                }
                match &x.value {
                    Some(value) => {
                        if self.current_function == FunctionType::Initializer {
                            Err(
                                LoxResult::new_error(
                                    x.keyword.line,
                                    "Can't return a value from an initializer.",
                                ),
                            )
                        } else {
                            self.resolve_expr(value)
                        }
                    },
                    None => Ok(()),
                }
            },
            Stmt::Var(v) => match self.declare(&v.name) {
                Ok(_) => {
                    match &v.initializer {
                        Some(initializer) => match self.resolve_expr(initializer) {
                            Ok(_) => {},
                            Err(e) => {
                                return Err(e);
                            },
                        },
                        None => {},
                    }
                    self.define(v.name.lexeme.as_str());
                    Ok(())
                },
                Err(e) => Err(e),
            },
            Stmt::While(w) => match self.resolve_expr(&w.condition) {
                Ok(_) => self.resolve_stmt(&w.body),
                Err(e) => Err(e),
            },
        }
    }

    /// Resolves the statements of a block or body in order.
    fn resolve_list(&mut self, stmts: &Vec<Stmt>) -> (r: Result<(), LoxResult>)
        ensures
            *final(final(self).interpreter) == *final(old(self).interpreter),
            records_only(old(self).interpreter@, final(self).interpreter@),
            final(self).interpreter.fuel() == old(self).interpreter.fuel(),
            match r {
                Ok(_) => resolve_stmts(old(self).model(), stmts@, 0) == Ok::<Resolution, Outcome>(
                    final(self).model(),
                ),
                Err(e) => resolve_stmts(old(self).model(), stmts@, 0) == Err::<
                    Resolution,
                    Outcome,
                >(e@),
            },
        decreases 1nat, stmts@, stmts@.len(),
    {
        let mut i: usize = 0;
        while i < stmts.len()
            invariant
                i <= stmts.len(),
                *final(self.interpreter) == *final(old(self).interpreter),
                records_only(old(self).interpreter@, self.interpreter@),
                self.interpreter.fuel() == old(self).interpreter.fuel(),
                resolve_stmts(self.model(), stmts@, i as int) == resolve_stmts(
                    old(self).model(),
                    stmts@,
                    0,
                ),
            decreases stmts.len() - i,
        {
            match self.resolve_stmt(&stmts[i]) {
                Ok(_) => {},
                Err(e) => {
                    return Err(e);
                },
            }
            i += 1;
        }
        Ok(())
    }

    /// Resolves a program: its statements in order. The first error ends
    /// the pass.
    pub fn resolve_stmts(&mut self, stmts: &[Stmt]) -> (r: Result<(), LoxResult>)
        ensures
            *final(final(self).interpreter) == *final(old(self).interpreter),
            records_only(old(self).interpreter@, final(self).interpreter@),
            final(self).interpreter.fuel() == old(self).interpreter.fuel(),
            match r {
                Ok(_) => resolve_stmts(old(self).model(), stmts@, 0) == Ok::<Resolution, Outcome>(
                    final(self).model(),
                ),
                Err(e) => resolve_stmts(old(self).model(), stmts@, 0) == Err::<
                    Resolution,
                    Outcome,
                >(e@),
            },
    {
        let mut i: usize = 0;
        while i < stmts.len()
            invariant
                i <= stmts.len(),
                *final(self.interpreter) == *final(old(self).interpreter),
                records_only(old(self).interpreter@, self.interpreter@),
                self.interpreter.fuel() == old(self).interpreter.fuel(),
                resolve_stmts(self.model(), stmts@, i as int) == resolve_stmts(
                    old(self).model(),
                    stmts@,
                    0,
                ),
            decreases stmts.len() - i,
        {
            match self.resolve_stmt(&stmts[i]) {
                Ok(_) => {},
                Err(e) => {
                    return Err(e);
                },
            }
            i += 1;
        }
        Ok(())
    }
}

} // verus!
