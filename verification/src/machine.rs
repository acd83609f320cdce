//! What a program means: the interpreter's state as plain values, and the
//! state and result that evaluating an expression or executing a statement
//! leads to.
//!
//! Evaluation is defined for a budget: entering a function body and going
//! round a loop once more each take one from it, and where none is left the
//! result is a runtime error. So every evaluation ends.

use crate::environment::{
    ancestor, assign, assign_at, bind, bound, define, get, get_at, holder, keeps,
    lemma_define_keeps_scopes, wrap, BindingView, Scope,
};
use crate::expr::{
    AssignExpr, BinaryExpr, CallExpr, ConditionalExpr, Expr, GetExpr, LogicalExpr, Native, SetExpr,
    SuperExpr, UnaryExpr, Value,
};
use crate::functions::FunctionView;
use crate::lox_class::{find_method, ClassView, InstanceView};
use crate::lox_result::Outcome;
use crate::operators::{binary, is_truthy, number_text, runtime, unary};
use crate::stmt::{ClassStmt, FunctionStmt, Stmt, WhileStmt};
use crate::text::decimal;
use crate::token::{Kind, Token};
use std::rc::Rc;
use vstd::prelude::*;

verus! {

/// The interpreter's state, as plain values.
pub struct Machine {
    /// The store of scopes. The first is the global scope.
    pub scopes: Seq<Scope>,
    /// The store of function values.
    pub functions: Seq<FunctionView>,
    /// The store of classes.
    pub classes: Seq<ClassView>,
    /// The store of instances.
    pub instances: Seq<InstanceView>,
    /// The index of the current scope.
    pub current: int,
    /// The resolver's bindings: the scope depth of each resolved expression,
    /// by the expression's id.
    pub locals: Map<usize, usize>,
    /// The lines printed so far.
    pub output: Seq<Seq<char>>,
    /// What the native `clock` gives, in units.
    pub clock: int,
}

/// A state with the result of evaluating an expression in it.
pub struct Evaluated {
    pub machine: Machine,
    pub result: Result<Value, Outcome>,
}

/// A state with the result of executing a statement in it.
pub struct Executed {
    pub machine: Machine,
    pub result: Result<(), Outcome>,
}

/// A state with the values of the arguments evaluated in it.
pub struct Gathered {
    pub machine: Machine,
    pub result: Result<Seq<Value>, Outcome>,
}

/// The message for a name that no scope binds.
pub open spec fn undefined_variable(name: Seq<char>) -> Seq<char> {
    "Undefined variable '"@ + name + "'."@
}

/// The message for a property that an instance has not.
pub open spec fn undefined_property(name: Seq<char>) -> Seq<char> {
    "Undefined property '"@ + name + "'."@
}

/// The message for a call with the wrong number of arguments.
pub open spec fn arity_mismatch(expected: nat, got: nat) -> Seq<char> {
    "Expected "@ + decimal(expected) + " arguments but got "@ + decimal(got) + "."@
}

/// The message for a budget that is used up.
pub open spec fn budget_exhausted() -> Seq<char> {
    "Execution budget exhausted."@
}

/// The display form of a value: `nil`, `true` or `false`; a number as it is
/// written; text as it is; `<fn NAME>` for a function; the name of a class;
/// `<NAME instance>` for an instance of the class `NAME`.
pub open spec fn display(m: Machine, v: Value) -> Seq<char> {
    match v {
        Value::Nil => "nil"@,
        Value::Boolean(b) => if b {
            "true"@
        } else {
            "false"@
        },
        Value::Number(n) => number_text(n),
        Value::Text(s) => s,
        Value::Function(f) => if 0 <= f < m.functions.len() {
            "<fn "@ + m.functions[f].declaration.name.lexeme@ + ">"@
        } else {
            "<fn>"@
        },
        Value::NativeFunction(_) => "<native fn>"@,
        Value::Class(c) => if 0 <= c < m.classes.len() {
            m.classes[c].name
        } else {
            "<class>"@
        },
        Value::Instance(i) => if 0 <= i < m.instances.len() && 0 <= m.instances[i].class
            < m.classes.len() {
            "<"@ + m.classes[m.instances[i].class].name + " instance>"@
        } else {
            "<instance>"@
        },
    }
}

/// The value of the variable-shaped expression `id` named by `name`: found
/// at its resolved depth where it has one, else along the chain of scopes.
pub open spec fn look_up(m: Machine, id: usize, name: Token) -> Result<Value, Outcome> {
    let found = if m.locals.dom().contains(id) {
        get_at(m.scopes, m.current, m.locals[id] as nat, name.lexeme@)
    } else {
        get(m.scopes, m.current, name.lexeme@)
    };
    match found {
        Some(v) => Ok(v),
        None => Err(runtime(name.line as int, undefined_variable(name.lexeme@))),
    }
}

/// The state after the function at `function` was bound to the instance at
/// `instance`, with the index of the bound function: a new function with the
/// same declaration, closed over a new scope that holds `this` and is
/// enclosed by the function's own closure. `None` where there is no such
/// function.
pub open spec fn bind_method(m: Machine, function: int, instance: int) -> Option<(Machine, int)> {
    if 0 <= function < m.functions.len() {
        let scope = m.scopes.len() as int;
        let scopes = define(
            wrap(m.scopes, m.functions[function].closure),
            scope,
            "this"@,
            Value::Instance(instance),
        );
        let bound_function = FunctionView {
            declaration: m.functions[function].declaration,
            closure: scope,
            is_initializer: m.functions[function].is_initializer,
        };
        Some(
            (
                Machine { scopes, functions: m.functions.push(bound_function), ..m },
                m.functions.len() as int,
            ),
        )
    } else {
        None
    }
}

/// The method found, bound to the instance at `instance`; an undefined
/// property where there is no such method.
pub open spec fn bound_method(m: Machine, method: Option<Value>, instance: int, name: Token)
    -> Evaluated {
    let missing = Evaluated {
        machine: m,
        result: Err(runtime(name.line as int, undefined_property(name.lexeme@))),
    };
    match method {
        Some(Value::Function(f)) => match bind_method(m, f, instance) {
            Some((machine, index)) => Evaluated { machine, result: Ok(Value::Function(index)) },
            None => missing,
        },
        _ => missing,
    }
}

/// The property `name` of `object`: a field of the instance where it has
/// one of that name, else the method of its class bound to it.
pub open spec fn property(m: Machine, object: Value, name: Token) -> Evaluated {
    match object {
        Value::Instance(i) => if 0 <= i < m.instances.len() {
            match bound(m.instances[i].fields, name.lexeme@) {
                Some(v) => Evaluated { machine: m, result: Ok(v) },
                None => bound_method(
                    m,
                    find_method(m.classes, m.instances[i].class, name.lexeme@),
                    i,
                    name,
                ),
            }
        } else {
            Evaluated {
                machine: m,
                result: Err(runtime(name.line as int, "Only instances have properties."@)),
            }
        },
        _ => Evaluated {
            machine: m,
            result: Err(runtime(name.line as int, "Only instances have properties."@)),
        },
    }
}

/// What `super.method` gives: the method of the superclass, found in the
/// scope that the expression was resolved to, bound to the instance that
/// `this` names one scope further in.
pub open spec fn eval_super(m: Machine, e: SuperExpr) -> Evaluated {
    let line = e.keyword.line as int;
    let no_super = Evaluated { machine: m, result: Err(runtime(line, undefined_variable("super"@))) };
    let no_this = Evaluated { machine: m, result: Err(runtime(line, undefined_variable("this"@))) };
    if !m.locals.dom().contains(e.id) {
        no_super
    } else {
        let depth = m.locals[e.id] as nat;
        match get_at(m.scopes, m.current, depth, "super"@) {
            Some(Value::Class(class)) => if depth == 0 {
                no_this
            } else {
                match get_at(m.scopes, m.current, (depth - 1) as nat, "this"@) {
                    Some(Value::Instance(i)) => bound_method(
                        m,
                        find_method(m.classes, class, e.method.lexeme@),
                        i,
                        e.method,
                    ),
                    _ => no_this,
                }
            },
            _ => no_super,
        }
    }
}

/// The scopes after the parameters from `from` on were bound, in scope
/// `scope`, to the arguments at their positions.
pub open spec fn bind_parameters(
    scopes: Seq<Scope>,
    scope: int,
    params: Seq<Token>,
    args: Seq<Value>,
    from: int,
) -> Seq<Scope>
    decreases params.len() - from,
{
    if 0 <= from < params.len() && from < args.len() {
        bind_parameters(
            define(scopes, scope, params[from].lexeme@, args[from]),
            scope,
            params,
            args,
            from + 1,
        )
    } else {
        scopes
    }
}

/// What a call is once its callee and arguments are known and before any
/// body runs.
pub enum Prepared {
    /// The call fails.
    Failed(Outcome),
    /// The call is over, with this state and value.
    Done(Machine, Value),
    /// The body of the function at `function` is to run in scope `scope`.
    /// The call then gives `forced` if that is a value.
    Frame { machine: Machine, function: int, scope: int, forced: Option<Value> },
}

/// The frame for a call of the function at `function`, which is in the
/// store: a new scope enclosed by the function's closure, with the
/// parameters bound to the arguments. An arity mismatch where the numbers of
/// parameters and arguments differ.
pub open spec fn frame(m: Machine, function: int, args: Seq<Value>, line: int, forced: Option<Value>)
    -> Prepared {
    let f = m.functions[function];
    if f.declaration.params@.len() != args.len() {
        Prepared::Failed(runtime(line, arity_mismatch(f.declaration.params@.len(), args.len())))
    } else {
        let scope = m.scopes.len() as int;
        Prepared::Frame {
            machine: Machine {
                scopes: bind_parameters(
                    wrap(m.scopes, f.closure),
                    scope,
                    f.declaration.params@,
                    args,
                    0,
                ),
                ..m
            },
            function,
            scope,
            forced,
        }
    }
}

/// What calling `callee` with `args` is before any body runs. A function
/// gets its frame. `clock` gives the clock's reading. A class gets a new
/// instance, and the frame of its `init` bound to that instance where it has
/// one. Anything else cannot be called.
pub open spec fn prepare(m: Machine, callee: Value, args: Seq<Value>, line: int) -> Prepared {
    let not_callable = Prepared::Failed(runtime(line, "Can only call functions and classes."@));
    match callee {
        Value::Function(f) => if 0 <= f < m.functions.len() {
            frame(m, f, args, line, None)
        } else {
            not_callable
        },
        Value::NativeFunction(Native::Clock) => if args.len() != 0 {
            Prepared::Failed(runtime(line, arity_mismatch(0, args.len())))
        } else {
            Prepared::Done(m, Value::Number(m.clock))
        },
        Value::Class(c) => if 0 <= c < m.classes.len() {
            let instance = m.instances.len() as int;
            let made = Machine {
                instances: m.instances.push(InstanceView { class: c, fields: Seq::empty() }),
                ..m
            };
            match find_method(m.classes, c, "init"@) {
                Some(Value::Function(init)) => if 0 <= init < m.functions.len() {
                    if m.functions[init].declaration.params@.len() != args.len() {
                        Prepared::Failed(
                            runtime(
                                line,
                                arity_mismatch(
                                    m.functions[init].declaration.params@.len(),
                                    args.len(),
                                ),
                            ),
                        )
                    } else {
                        match bind_method(made, init, instance) {
                            Some((machine, bound_init)) => frame(
                                machine,
                                bound_init,
                                args,
                                line,
                                Some(Value::Instance(instance)),
                            ),
                            None => not_callable,
                        }
                    }
                } else {
                    not_callable
                },
                _ => if args.len() != 0 {
                    Prepared::Failed(runtime(line, arity_mismatch(0, args.len())))
                } else {
                    Prepared::Done(made, Value::Instance(instance))
                },
            }
        } else {
            not_callable
        },
        _ => not_callable,
    }
}

/// What a call gives once the body of the function at `function` has run
/// with `result`: the value that a `return` carried, else `nil`; for an
/// initializer the `this` of its closure in any case; `forced` where that is
/// a value. An error stays an error.
pub open spec fn finish(m: Machine, result: Result<(), Outcome>, function: int, forced: Option<
    Value,
>) -> Result<Value, Outcome> {
    let returned: Result<Value, Outcome> = match result {
        Ok(_) => Ok(Value::Nil),
        Err(Outcome::Return(v)) => Ok(v),
        Err(e) => Err(e),
    };
    match returned {
        Err(e) => Err(e),
        Ok(v) => match forced {
            Some(value) => Ok(value),
            None => if 0 <= function < m.functions.len() && m.functions[function].is_initializer {
                match get_at(m.scopes, m.functions[function].closure, 0, "this"@) {
                    Some(this) => Ok(this),
                    None => Ok(Value::Nil),
                }
            } else {
                Ok(v)
            },
        },
    }
}

/// The functions and the method table after the methods from `from` on were
/// declared: each becomes a function closed over `closure`, an initializer
/// if it is named `init`, and is entered in the table under its name.
pub open spec fn declare_methods(
    functions: Seq<FunctionView>,
    table: Seq<BindingView>,
    methods: Seq<Rc<FunctionStmt>>,
    from: int,
    closure: int,
) -> (Seq<FunctionView>, Seq<BindingView>)
    decreases methods.len() - from,
{
    if 0 <= from < methods.len() {
        let declaration = *methods[from];
        declare_methods(
            functions.push(
                FunctionView {
                    declaration,
                    closure,
                    is_initializer: declaration.name.lexeme@ == "init"@,
                },
            ),
            bind(table, declaration.name.lexeme@, Value::Function(functions.len() as int)),
            methods,
            from + 1,
            closure,
        )
    } else {
        (functions, table)
    }
}

/// The class that a superclass clause names, if there is a clause.
pub open spec fn superclass_of(m: Machine, c: ClassStmt) -> Result<Option<int>, Outcome> {
    match c.superclass {
        Some(v) => match look_up(m, v.id, v.name) {
            Ok(Value::Class(k)) => Ok(Some(k)),
            Ok(_) => Err(runtime(v.name.line as int, "Superclass must be a class."@)),
            Err(e) => Err(e),
        },
        None => Ok(None),
    }
}

/// Executing a class declaration: the name is defined as `nil`; where there
/// is a superclass, a scope that holds `super` is made; the methods become
/// functions closed over that scope, or over the current one; the class is
/// stored and assigned to its name.
pub open spec fn exec_class(m: Machine, c: ClassStmt) -> Executed {
    match superclass_of(m, c) {
        Err(e) => Executed { machine: m, result: Err(e) },
        Ok(parent) => {
            let name = c.name.lexeme@;
            let named = define(m.scopes, m.current, name, Value::Nil);
            let closure = match parent {
                Some(_) => named.len() as int,
                None => m.current,
            };
            let scopes = match parent {
                Some(k) => define(wrap(named, m.current), closure, "super"@, Value::Class(k)),
                None => named,
            };
            let declared = declare_methods(m.functions, Seq::empty(), c.methods@, 0, closure);
            let class = ClassView { name, superclass: parent, methods: declared.1 };
            let stored = Machine {
                scopes,
                functions: declared.0,
                classes: m.classes.push(class),
                ..m
            };
            match assign(scopes, m.current, name, Value::Class(m.classes.len() as int)) {
                Some(assigned) => Executed {
                    machine: Machine { scopes: assigned, ..stored },
                    result: Ok(()),
                },
                None => Executed {
                    machine: stored,
                    result: Err(runtime(c.name.line as int, undefined_variable(name))),
                },
            }
        },
    }
}

/// Evaluating an expression with a budget of `fuel`.
pub open spec fn eval(m: Machine, e: Expr, fuel: nat) -> Evaluated
    decreases fuel, 0nat, e, 0nat,
{
    match e {
        Expr::Literal(v) => Evaluated { machine: m, result: Ok(v@) },
        Expr::Grouping(g) => eval(m, g.expression, fuel),
        Expr::Unary(u) => eval_unary(m, *u, fuel),
        Expr::Binary(b) => eval_binary(m, *b, fuel),
        Expr::Logical(l) => eval_logical(m, *l, fuel),
        Expr::Conditional(c) => eval_conditional(m, *c, fuel),
        Expr::Variable(v) => Evaluated { machine: m, result: look_up(m, v.id, v.name) },
        Expr::This(t) => Evaluated { machine: m, result: look_up(m, t.id, t.keyword) },
        Expr::Assign(a) => eval_assign(m, *a, fuel),
        Expr::Call(c) => eval_call(m, *c, fuel),
        Expr::Get(g) => eval_get(m, *g, fuel),
        Expr::SetField(s) => eval_set(m, *s, fuel),
        Expr::Super(s) => eval_super(m, *s),
    }
}

/// A unary operation: the operand, then the operator.
pub open spec fn eval_unary(m: Machine, e: UnaryExpr, fuel: nat) -> Evaluated
    decreases fuel, 0nat, e, 0nat,
{
    let right = eval(m, e.right, fuel);
    match right.result {
        Ok(v) => Evaluated {
            machine: right.machine,
            result: unary(e.operator.spec_kind(), e.operator.line as int, v),
        },
        Err(_) => right,
    }
}

/// A binary operation: the left operand, the right operand, then the
/// operator.
pub open spec fn eval_binary(m: Machine, e: BinaryExpr, fuel: nat) -> Evaluated
    decreases fuel, 0nat, e, 0nat,
{
    let left = eval(m, e.left, fuel);
    match left.result {
        Ok(a) => {
            let right = eval(left.machine, e.right, fuel);
            match right.result {
                Ok(b) => Evaluated {
                    machine: right.machine,
                    result: binary(e.operator.spec_kind(), e.operator.line as int, a, b),
                },
                Err(_) => right,
            }
        },
        Err(_) => left,
    }
}

/// `or` gives its left operand where that counts as true, `and` where it
/// does not; else the right operand, which is evaluated only then.
pub open spec fn eval_logical(m: Machine, e: LogicalExpr, fuel: nat) -> Evaluated
    decreases fuel, 0nat, e, 0nat,
{
    let left = eval(m, e.left, fuel);
    match left.result {
        Ok(a) => if (e.operator.spec_kind() == Kind::Or) == is_truthy(a) {
            left
        } else {
            eval(left.machine, e.right, fuel)
        },
        Err(_) => left,
    }
}

/// The condition, then the branch that it selects and no other.
pub open spec fn eval_conditional(m: Machine, e: ConditionalExpr, fuel: nat) -> Evaluated
    decreases fuel, 0nat, e, 0nat,
{
    let condition = eval(m, e.condition, fuel);
    match condition.result {
        Ok(c) => if is_truthy(c) {
            eval(condition.machine, e.left, fuel)
        } else {
            eval(condition.machine, e.right, fuel)
        },
        Err(_) => condition,
    }
}

/// The state after `name` was given `value`: at the resolved depth of the
/// expression `id` where it has one, else along the chain of scopes.
pub open spec fn store(m: Machine, id: usize, name: Token, value: Value) -> Evaluated {
    let assigned = if m.locals.dom().contains(id) {
        assign_at(m.scopes, m.current, m.locals[id] as nat, name.lexeme@, value)
    } else {
        assign(m.scopes, m.current, name.lexeme@, value)
    };
    match assigned {
        Some(scopes) => Evaluated { machine: Machine { scopes, ..m }, result: Ok(value) },
        None => Evaluated {
            machine: m,
            result: Err(runtime(name.line as int, undefined_variable(name.lexeme@))),
        },
    }
}

/// An assignment gives the value that it assigns.
pub open spec fn eval_assign(m: Machine, e: AssignExpr, fuel: nat) -> Evaluated
    decreases fuel, 0nat, e, 0nat,
{
    let value = eval(m, e.value, fuel);
    match value.result {
        Ok(v) => store(value.machine, e.id, e.name, v),
        Err(_) => value,
    }
}

/// A property of the object that the expression gives.
pub open spec fn eval_get(m: Machine, e: GetExpr, fuel: nat) -> Evaluated
    decreases fuel, 0nat, e, 0nat,
{
    let object = eval(m, e.object, fuel);
    match object.result {
        Ok(o) => property(object.machine, o, e.name),
        Err(_) => object,
    }
}

/// The state after the field `name` of the instance at `instance` was given
/// `value`.
pub open spec fn set_field(m: Machine, instance: int, name: Token, value: Value) -> Evaluated {
    if 0 <= instance < m.instances.len() {
        Evaluated {
            machine: Machine {
                instances: m.instances.update(
                    instance,
                    InstanceView {
                        class: m.instances[instance].class,
                        fields: bind(m.instances[instance].fields, name.lexeme@, value),
                    },
                ),
                ..m
            },
            result: Ok(value),
        }
    } else {
        Evaluated {
            machine: m,
            result: Err(runtime(name.line as int, "Only instances have fields."@)),
        }
    }
}

/// Setting a field: the object, which must be an instance, then the value.
pub open spec fn eval_set(m: Machine, e: SetExpr, fuel: nat) -> Evaluated
    decreases fuel, 0nat, e, 0nat,
{
    let object = eval(m, e.object, fuel);
    match object.result {
        Ok(Value::Instance(i)) => {
            let value = eval(object.machine, e.value, fuel);
            match value.result {
                Ok(v) => set_field(value.machine, i, e.name, v),
                Err(_) => value,
            }
        },
        Ok(_) => Evaluated {
            machine: object.machine,
            result: Err(runtime(e.name.line as int, "Only instances have fields."@)),
        },
        Err(_) => object,
    }
}

/// The arguments from `from` on, left to right, after those in `values`.
pub open spec fn eval_arguments(m: Machine, args: Seq<Expr>, from: int, values: Seq<Value>, fuel: nat)
    -> Gathered
    decreases fuel, 0nat, args, args.len() - from,
{
    if 0 <= from < args.len() {
        let next = eval(m, args[from], fuel);
        match next.result {
            Ok(v) => eval_arguments(next.machine, args, from + 1, values.push(v), fuel),
            Err(e) => Gathered { machine: next.machine, result: Err(e) },
        }
    } else {
        Gathered { machine: m, result: Ok(values) }
    }
}

/// A call: the callee, the arguments left to right, then the body of what
/// is called, in a scope of its own and with one less of the budget.
pub open spec fn eval_call(m: Machine, e: CallExpr, fuel: nat) -> Evaluated
    decreases fuel, 0nat, e, 0nat,
{
    let callee = eval(m, e.callee, fuel);
    match callee.result {
        Ok(f) => {
            let gathered = eval_arguments(callee.machine, e.arguments@, 0, Seq::empty(), fuel);
            match gathered.result {
                Ok(args) => match prepare(gathered.machine, f, args, e.paren.line as int) {
                    Prepared::Failed(o) => Evaluated { machine: gathered.machine, result: Err(o) },
                    Prepared::Done(machine, v) => Evaluated { machine, result: Ok(v) },
                    Prepared::Frame { machine, function, scope, forced } => if fuel == 0 {
                        Evaluated {
                            machine,
                            result: Err(runtime(e.paren.line as int, budget_exhausted())),
                        }
                    } else {
                        let body = exec_block(
                            machine,
                            machine.functions[function].declaration.body@,
                            scope,
                            (fuel - 1) as nat,
                        );
                        Evaluated {
                            machine: body.machine,
                            result: finish(body.machine, body.result, function, forced),
                        }
                    },
                },
                Err(e) => Evaluated { machine: gathered.machine, result: Err(e) },
            }
        },
        Err(_) => callee,
    }
}

/// Executing `stmts` in scope `scope`, then going back to the scope that
/// was current, however the statements ended.
pub open spec fn exec_block(m: Machine, stmts: Seq<Stmt>, scope: int, fuel: nat) -> Executed
    decreases fuel, 1nat, stmts, stmts.len() + 1,
{
    let done = exec_list(Machine { current: scope, ..m }, stmts, 0, fuel);
    Executed { machine: Machine { current: m.current, ..done.machine }, result: done.result }
}

/// Executing the statements from `from` on, in order, up to the first that
/// does not end normally.
pub open spec fn exec_list(m: Machine, stmts: Seq<Stmt>, from: int, fuel: nat) -> Executed
    decreases fuel, 1nat, stmts, stmts.len() - from,
{
    if 0 <= from < stmts.len() {
        let first = exec(m, stmts[from], fuel);
        match first.result {
            Ok(_) => exec_list(first.machine, stmts, from + 1, fuel),
            Err(_) => first,
        }
    } else {
        Executed { machine: m, result: Ok(()) }
    }
}

/// A loop: the condition, and while it counts as true the body and, with
/// one less of the budget, the loop again.
pub open spec fn exec_while(m: Machine, w: WhileStmt, fuel: nat) -> Executed
    decreases fuel, 1nat, w, 0nat,
{
    let condition = eval(m, w.condition, fuel);
    match condition.result {
        Ok(c) => if is_truthy(c) {
            let body = exec(condition.machine, w.body, fuel);
            match body.result {
                Ok(_) => if fuel == 0 {
                    Executed { machine: body.machine, result: Err(runtime(0, budget_exhausted())) }
                } else {
                    exec_while(body.machine, w, (fuel - 1) as nat)
                },
                Err(_) => body,
            }
        } else {
            Executed { machine: condition.machine, result: Ok(()) }
        },
        Err(e) => Executed { machine: condition.machine, result: Err(e) },
    }
}

/// The state after a function was made from `declaration`, closed over the
/// current scope, and its name defined there.
pub open spec fn declare_function(m: Machine, declaration: FunctionStmt) -> Machine {
    Machine {
        scopes: define(
            m.scopes,
            m.current,
            declaration.name.lexeme@,
            Value::Function(m.functions.len() as int),
        ),
        functions: m.functions.push(
            FunctionView { declaration, closure: m.current, is_initializer: false },
        ),
        ..m
    }
}

/// Executing a statement with a budget of `fuel`.
pub open spec fn exec(m: Machine, s: Stmt, fuel: nat) -> Executed
    decreases fuel, 1nat, s, 0nat,
{
    match s {
        Stmt::Expression(x) => {
            let value = eval(m, x.expression, fuel);
            Executed {
                machine: value.machine,
                result: match value.result {
                    Ok(_) => Ok(()),
                    Err(e) => Err(e),
                },
            }
        },
        Stmt::Print(p) => {
            let value = eval(m, p.expression, fuel);
            match value.result {
                Ok(v) => Executed {
                    machine: Machine {
                        output: value.machine.output.push(display(value.machine, v)),
                        ..value.machine
                    },
                    result: Ok(()),
                },
                Err(e) => Executed { machine: value.machine, result: Err(e) },
            }
        },
        Stmt::Var(v) => match v.initializer {
            Some(initializer) => {
                let value = eval(m, initializer, fuel);
                match value.result {
                    Ok(x) => Executed {
                        machine: Machine {
                            scopes: define(
                                value.machine.scopes,
                                value.machine.current,
                                v.name.lexeme@,
                                x,
                            ),
                            ..value.machine
                        },
                        result: Ok(()),
                    },
                    Err(e) => Executed { machine: value.machine, result: Err(e) },
                }
            },
            None => Executed {
                machine: Machine {
                    scopes: define(m.scopes, m.current, v.name.lexeme@, Value::Nil),
                    ..m
                },
                result: Ok(()),
            },
        },
        Stmt::Block(b) => exec_block(
            Machine { scopes: wrap(m.scopes, m.current), ..m },
            b.statements@,
            m.scopes.len() as int,
            fuel,
        ),
        Stmt::If(i) => {
            let condition = eval(m, i.condition, fuel);
            match condition.result {
                Ok(c) => if is_truthy(c) {
                    exec(condition.machine, i.then_branch, fuel)
                } else {
                    match i.else_branch {
                        Some(otherwise) => exec(condition.machine, otherwise, fuel),
                        None => Executed { machine: condition.machine, result: Ok(()) },
                    }
                },
                Err(e) => Executed { machine: condition.machine, result: Err(e) },
            }
        },
        Stmt::While(w) => exec_while(m, *w, fuel),
        Stmt::Return(r) => match r.value {
            Some(value) => {
                let returned = eval(m, value, fuel);
                Executed {
                    machine: returned.machine,
                    result: match returned.result {
                        Ok(v) => Err(Outcome::Return(v)),
                        Err(e) => Err(e),
                    },
                }
            },
            None => Executed { machine: m, result: Err(Outcome::Return(Value::Nil)) },
        },
        Stmt::Function(f) => Executed { machine: declare_function(m, *f), result: Ok(()) },
        Stmt::Class(c) => exec_class(m, *c),
    }
}

/// Running a program: its statements in order, in the current scope.
pub open spec fn run(m: Machine, statements: Seq<Stmt>, fuel: nat) -> Executed {
    exec_list(m, statements, 0, fuel)
}

/// The state that an interpreter starts in: one scope, the global one, in
/// which `clock` names the native of that name; nothing resolved, nothing
/// printed.
pub open spec fn initial(clock: int) -> Machine {
    Machine {
        scopes: seq![
            Scope {
                bindings: seq![
                    BindingView { name: "clock"@, value: Value::NativeFunction(Native::Clock) },
                ],
                enclosing: None,
            },
        ],
        functions: Seq::empty(),
        classes: Seq::empty(),
        instances: Seq::empty(),
        current: 0,
        locals: Map::empty(),
        output: Seq::empty(),
        clock,
    }
}


/// Negating an expression twice evaluates to its truthiness as a boolean,
/// in the state that evaluating the expression leads to; an error of the
/// expression stays as it is.
pub proof fn lemma_double_negation_evaluates(m: Machine, outer: Token, inner: Token, e: Expr, fuel: nat)
    requires
        outer.spec_kind() == Kind::Bang,
        inner.spec_kind() == Kind::Bang,
    ensures
        ({
            let twice = Expr::Unary(
                Box::new(
                    UnaryExpr {
                        operator: outer,
                        right: Expr::Unary(Box::new(UnaryExpr { operator: inner, right: e })),
                    },
                ),
            );
            let once = eval(m, e, fuel);
            eval(m, twice, fuel) == (Evaluated {
                machine: once.machine,
                result: match once.result {
                    Ok(v) => Ok(Value::Boolean(is_truthy(v))),
                    Err(o) => Err(o),
                },
            })
        }),
{
    let negated = Expr::Unary(Box::new(UnaryExpr { operator: inner, right: e }));
    let twice = Expr::Unary(Box::new(UnaryExpr { operator: outer, right: negated }));
    assert(eval(m, negated, fuel) == eval_unary(m, UnaryExpr { operator: inner, right: e }, fuel));
    assert(eval(m, twice, fuel) == eval_unary(
        m,
        UnaryExpr { operator: outer, right: negated },
        fuel,
    ));
}

/// A block leaves the current scope as it found it, however its statements
/// end.
pub proof fn lemma_block_restores_scope(m: Machine, stmts: Seq<Stmt>, scope: int, fuel: nat)
    ensures
        exec_block(m, stmts, scope, fuel).machine.current == m.current,
{
}

/// A call of an initializer gives the `this` of its closure, whatever its
/// body returned, unless the body failed.
pub proof fn lemma_initializer_gives_this(m: Machine, result: Result<(), Outcome>, function: int)
    requires
        0 <= function < m.functions.len(),
        m.functions[function].is_initializer,
        result is Ok || result matches Err(Outcome::Return(_)),
    ensures
        finish(m, result, function, None) == Ok::<Value, Outcome>(
            match get_at(m.scopes, m.functions[function].closure, 0, "this"@) {
                Some(this) => this,
                None => Value::Nil,
            },
        ),
{
}

/// A call of a class gives the new instance, whatever the body of its
/// `init` returned, unless the body failed.
pub proof fn lemma_class_call_gives_instance(
    m: Machine,
    result: Result<(), Outcome>,
    function: int,
    instance: Value,
)
    requires
        result is Ok || result matches Err(Outcome::Return(_)),
    ensures
        finish(m, result, function, Some(instance)) == Ok::<Value, Outcome>(instance),
{
}


/// Whether the state `after` is one that evaluation may lead to from
/// `before`: the current scope, the resolver's bindings and the clock are
/// the same; no scope and no instance is gone; every scope is enclosed as it
/// was and holds every name that it held; every function and class is as it
/// was; and every line printed is still there. So a function finds the
/// scope that it closes over, with its names, whenever it is called.
pub open spec fn grown(before: Machine, after: Machine) -> bool {
    &&& after.current == before.current
    &&& after.locals == before.locals
    &&& after.clock == before.clock
    &&& before.scopes.len() <= after.scopes.len()
    &&& forall|i: int|
        0 <= i < before.scopes.len() ==> keeps(#[trigger] before.scopes[i], after.scopes[i])
    &&& before.instances.len() <= after.instances.len()
    &&& before.functions.len() <= after.functions.len()
    &&& forall|i: int|
        0 <= i < before.functions.len() ==> #[trigger] after.functions[i] == before.functions[i]
    &&& before.classes.len() <= after.classes.len()
    &&& forall|i: int|
        0 <= i < before.classes.len() ==> #[trigger] after.classes[i] == before.classes[i]
    &&& before.output.len() <= after.output.len()
    &&& forall|i: int| 0 <= i < before.output.len() ==> #[trigger] after.output[i] == before.output[i]
}

/// Binding parameters in a scope changes no other scope, and keeps that
/// scope enclosed as it was.
proof fn lemma_bind_parameters_links(
    scopes: Seq<Scope>,
    scope: int,
    params: Seq<Token>,
    args: Seq<Value>,
    from: int,
)
    ensures
        bind_parameters(scopes, scope, params, args, from).len() == scopes.len(),
        forall|i: int|
            0 <= i < scopes.len() ==> (#[trigger] bind_parameters(
                scopes,
                scope,
                params,
                args,
                from,
            )[i]).enclosing == scopes[i].enclosing,
        forall|i: int|
            0 <= i < scopes.len() && i != scope ==> #[trigger] bind_parameters(
                scopes,
                scope,
                params,
                args,
                from,
            )[i] == scopes[i],
    decreases params.len() - from,
{
    if 0 <= from < params.len() && from < args.len() {
        lemma_bind_parameters_links(
            define(scopes, scope, params[from].lexeme@, args[from]),
            scope,
            params,
            args,
            from + 1,
        );
    }
}

/// Declaring methods keeps every function that was there.
proof fn lemma_declare_methods_grows(
    functions: Seq<FunctionView>,
    table: Seq<BindingView>,
    methods: Seq<Rc<FunctionStmt>>,
    from: int,
    closure: int,
)
    ensures
        functions.len() <= declare_methods(functions, table, methods, from, closure).0.len(),
        forall|i: int|
            0 <= i < functions.len() ==> #[trigger] declare_methods(
                functions,
                table,
                methods,
                from,
                closure,
            ).0[i] == functions[i],
    decreases methods.len() - from,
{
    if 0 <= from < methods.len() {
        let declaration = *methods[from];
        let more = functions.push(
            FunctionView {
                declaration,
                closure,
                is_initializer: declaration.name.lexeme@ == "init"@,
            },
        );
        lemma_declare_methods_grows(
            more,
            bind(table, declaration.name.lexeme@, Value::Function(functions.len() as int)),
            methods,
            from + 1,
            closure,
        );
    }
}

/// What a call is before any body runs has grown from the state the call
/// was made in.
proof fn lemma_prepare_grows(m: Machine, callee: Value, args: Seq<Value>, line: int)
    ensures
        match prepare(m, callee, args, line) {
            Prepared::Failed(_) => true,
            Prepared::Done(machine, _) => grown(m, machine),
            Prepared::Frame { machine, .. } => grown(m, machine),
        },
{
    match callee {
        Value::Function(f) => {
            if 0 <= f < m.functions.len() {
                lemma_bind_parameters_links(
                    wrap(m.scopes, m.functions[f].closure),
                    m.scopes.len() as int,
                    m.functions[f].declaration.params@,
                    args,
                    0,
                );
            }
        },
        Value::Class(c) => {
            if 0 <= c < m.classes.len() {
                let instance = m.instances.len() as int;
                let made = Machine {
                    instances: m.instances.push(InstanceView { class: c, fields: Seq::empty() }),
                    ..m
                };
                match find_method(m.classes, c, "init"@) {
                    Some(Value::Function(init)) => {
                        if 0 <= init < m.functions.len() {
                            match bind_method(made, init, instance) {
                                Some((machine, bound_init)) => {
                                    lemma_bind_parameters_links(
                                        wrap(machine.scopes, machine.functions[bound_init].closure),
                                        machine.scopes.len() as int,
                                        machine.functions[bound_init].declaration.params@,
                                        args,
                                        0,
                                    );
                                },
                                None => {},
                            }
                        }
                    },
                    _ => {},
                }
            }
        },
        _ => {},
    }
}

/// Executing a class declaration leads to a state that has grown.
proof fn lemma_class_grows(m: Machine, c: ClassStmt)
    ensures
        grown(m, exec_class(m, c).machine),
{
    match superclass_of(m, c) {
        Err(_) => {},
        Ok(parent) => {
            let name = c.name.lexeme@;
            let named = define(m.scopes, m.current, name, Value::Nil);
            lemma_define_keeps_scopes(m.scopes, m.current, name, Value::Nil);
            let closure = match parent {
                Some(_) => named.len() as int,
                None => m.current,
            };
            let scopes = match parent {
                Some(k) => define(wrap(named, m.current), closure, "super"@, Value::Class(k)),
                None => named,
            };
            lemma_declare_methods_grows(m.functions, Seq::empty(), c.methods@, 0, closure);
            let class = Value::Class(m.classes.len() as int);
            match holder(scopes, m.current, name) {
                Some(h) => {
                    lemma_define_keeps_scopes(scopes, h, name, class);
                },
                None => {},
            }
        },
    }
}

/// Evaluating an expression leads to a state that has grown from the one
/// it started in, whether it gives a value or fails. In particular the
/// current scope is the one it was.
pub proof fn lemma_eval_grows(m: Machine, e: Expr, fuel: nat)
    ensures
        grown(m, eval(m, e, fuel).machine),
    decreases fuel, 0nat, e, 0nat,
{
    match e {
        Expr::Literal(_) => {},
        Expr::Variable(_) => {},
        Expr::This(_) => {},
        Expr::Super(_) => {},
        Expr::Grouping(g) => {
            lemma_eval_grows(m, g.expression, fuel);
        },
        Expr::Unary(u) => {
            lemma_unary_grows(m, *u, fuel);
        },
        Expr::Binary(b) => {
            lemma_binary_grows(m, *b, fuel);
        },
        Expr::Logical(l) => {
            lemma_logical_grows(m, *l, fuel);
        },
        Expr::Conditional(c) => {
            lemma_conditional_grows(m, *c, fuel);
        },
        Expr::Assign(a) => {
            lemma_assign_grows(m, *a, fuel);
        },
        Expr::Get(g) => {
            lemma_get_grows(m, *g, fuel);
        },
        Expr::SetField(s) => {
            lemma_set_grows(m, *s, fuel);
        },
        Expr::Call(c) => {
            lemma_call_grows(m, *c, fuel);
        },
    }
}

proof fn lemma_unary_grows(m: Machine, e: UnaryExpr, fuel: nat)
    ensures
        grown(m, eval_unary(m, e, fuel).machine),
    decreases fuel, 0nat, e, 0nat,
{
    lemma_eval_grows(m, e.right, fuel);
}

proof fn lemma_binary_grows(m: Machine, e: BinaryExpr, fuel: nat)
    ensures
        grown(m, eval_binary(m, e, fuel).machine),
    decreases fuel, 0nat, e, 0nat,
{
    lemma_eval_grows(m, e.left, fuel);
    lemma_eval_grows(eval(m, e.left, fuel).machine, e.right, fuel);
}

proof fn lemma_logical_grows(m: Machine, e: LogicalExpr, fuel: nat)
    ensures
        grown(m, eval_logical(m, e, fuel).machine),
    decreases fuel, 0nat, e, 0nat,
{
    lemma_eval_grows(m, e.left, fuel);
    lemma_eval_grows(eval(m, e.left, fuel).machine, e.right, fuel);
}

proof fn lemma_conditional_grows(m: Machine, e: ConditionalExpr, fuel: nat)
    ensures
        grown(m, eval_conditional(m, e, fuel).machine),
    decreases fuel, 0nat, e, 0nat,
{
    lemma_eval_grows(m, e.condition, fuel);
    lemma_eval_grows(eval(m, e.condition, fuel).machine, e.left, fuel);
    lemma_eval_grows(eval(m, e.condition, fuel).machine, e.right, fuel);
}

proof fn lemma_assign_grows(m: Machine, e: AssignExpr, fuel: nat)
    ensures
        grown(m, eval_assign(m, e, fuel).machine),
    decreases fuel, 0nat, e, 0nat,
{
    lemma_eval_grows(m, e.value, fuel);
    let value = eval(m, e.value, fuel);
    match value.result {
        Ok(v) => {
            lemma_store_grows(value.machine, e.id, e.name, v);
        },
        Err(_) => {},
    }
}

/// Giving a variable a value leads to a state that has grown.
proof fn lemma_store_grows(m: Machine, id: usize, name: Token, value: Value)
    ensures
        grown(m, store(m, id, name, value).machine),
{
    let at = if m.locals.dom().contains(id) {
        ancestor(m.scopes, m.current, m.locals[id] as nat)
    } else {
        holder(m.scopes, m.current, name.lexeme@)
    };
    match at {
        Some(a) => {
            lemma_define_keeps_scopes(m.scopes, a, name.lexeme@, value);
        },
        None => {},
    }
}

proof fn lemma_get_grows(m: Machine, e: GetExpr, fuel: nat)
    ensures
        grown(m, eval_get(m, e, fuel).machine),
    decreases fuel, 0nat, e, 0nat,
{
    lemma_eval_grows(m, e.object, fuel);
}

proof fn lemma_set_grows(m: Machine, e: SetExpr, fuel: nat)
    ensures
        grown(m, eval_set(m, e, fuel).machine),
    decreases fuel, 0nat, e, 0nat,
{
    lemma_eval_grows(m, e.object, fuel);
    lemma_eval_grows(eval(m, e.object, fuel).machine, e.value, fuel);
}

proof fn lemma_call_grows(m: Machine, e: CallExpr, fuel: nat)
    ensures
        grown(m, eval_call(m, e, fuel).machine),
    decreases fuel, 0nat, e, 0nat,
{
    lemma_eval_grows(m, e.callee, fuel);
    let callee = eval(m, e.callee, fuel);
    lemma_arguments_grow(callee.machine, e.arguments@, 0, Seq::empty(), fuel);
    let gathered = eval_arguments(callee.machine, e.arguments@, 0, Seq::empty(), fuel);
    match (callee.result, gathered.result) {
        (Ok(f), Ok(args)) => {
            lemma_prepare_grows(gathered.machine, f, args, e.paren.line as int);
            match prepare(gathered.machine, f, args, e.paren.line as int) {
                Prepared::Frame { machine, function, scope, forced } => {
                    if fuel > 0 {
                        lemma_block_grows(
                            machine,
                            machine.functions[function].declaration.body@,
                            scope,
                            (fuel - 1) as nat,
                        );
                    }
                },
                _ => {},
            }
        },
        _ => {},
    }
}

/// Evaluating arguments leads to a state that has grown.
pub proof fn lemma_arguments_grow(
    m: Machine,
    args: Seq<Expr>,
    from: int,
    values: Seq<Value>,
    fuel: nat,
)
    ensures
        grown(m, eval_arguments(m, args, from, values, fuel).machine),
    decreases fuel, 0nat, args, args.len() - from,
{
    if 0 <= from < args.len() {
        lemma_eval_grows(m, args[from], fuel);
        let next = eval(m, args[from], fuel);
        match next.result {
            Ok(v) => {
                lemma_arguments_grow(next.machine, args, from + 1, values.push(v), fuel);
            },
            Err(_) => {},
        }
    }
}

/// Executing a block leads to a state that has grown; the current scope is
/// the one it was before the block, however the block ended.
pub proof fn lemma_block_grows(m: Machine, stmts: Seq<Stmt>, scope: int, fuel: nat)
    ensures
        grown(m, exec_block(m, stmts, scope, fuel).machine),
    decreases fuel, 1nat, stmts, stmts.len() + 1,
{
    lemma_list_grows(Machine { current: scope, ..m }, stmts, 0, fuel);
}

/// Executing statements in order leads to a state that has grown.
pub proof fn lemma_list_grows(m: Machine, stmts: Seq<Stmt>, from: int, fuel: nat)
    ensures
        grown(m, exec_list(m, stmts, from, fuel).machine),
    decreases fuel, 1nat, stmts, stmts.len() - from,
{
    if 0 <= from < stmts.len() {
        lemma_exec_grows(m, stmts[from], fuel);
        let first = exec(m, stmts[from], fuel);
        match first.result {
            Ok(_) => {
                lemma_list_grows(first.machine, stmts, from + 1, fuel);
            },
            Err(_) => {},
        }
    }
}

/// Executing a loop leads to a state that has grown.
pub proof fn lemma_while_grows(m: Machine, w: WhileStmt, fuel: nat)
    ensures
        grown(m, exec_while(m, w, fuel).machine),
    decreases fuel, 1nat, w, 0nat,
{
    lemma_eval_grows(m, w.condition, fuel);
    let condition = eval(m, w.condition, fuel);
    match condition.result {
        Ok(c) => {
            if is_truthy(c) {
                lemma_exec_grows(condition.machine, w.body, fuel);
                let body = exec(condition.machine, w.body, fuel);
                if body.result is Ok && fuel > 0 {
                    lemma_while_grows(body.machine, w, (fuel - 1) as nat);
                }
            }
        },
        Err(_) => {},
    }
}

/// Executing a statement leads to a state that has grown from the one it
/// started in, however the statement ended. In particular the current
/// scope is the one it was.
pub proof fn lemma_exec_grows(m: Machine, s: Stmt, fuel: nat)
    ensures
        grown(m, exec(m, s, fuel).machine),
    decreases fuel, 1nat, s, 0nat,
{
    match s {
        Stmt::Expression(x) => {
            lemma_eval_grows(m, x.expression, fuel);
        },
        Stmt::Print(p) => {
            lemma_eval_grows(m, p.expression, fuel);
        },
        Stmt::Var(v) => {
            match v.initializer {
                Some(initializer) => {
                    lemma_eval_grows(m, initializer, fuel);
                    let value = eval(m, initializer, fuel);
                    match value.result {
                        Ok(x) => {
                            lemma_define_keeps_scopes(
                                value.machine.scopes,
                                value.machine.current,
                                v.name.lexeme@,
                                x,
                            );
                        },
                        Err(_) => {},
                    }
                },
                None => {
                    lemma_define_keeps_scopes(m.scopes, m.current, v.name.lexeme@, Value::Nil);
                },
            }
        },
        Stmt::Block(b) => {
            let inside = Machine { scopes: wrap(m.scopes, m.current), ..m };
            lemma_block_grows(inside, b.statements@, m.scopes.len() as int, fuel);
            assert forall|i: int| 0 <= i < m.scopes.len() implies keeps(
                #[trigger] m.scopes[i],
                exec(m, s, fuel).machine.scopes[i],
            ) by {
                assert(inside.scopes[i] == m.scopes[i]);
            }
        },
        Stmt::If(i) => {
            lemma_eval_grows(m, i.condition, fuel);
            let condition = eval(m, i.condition, fuel);
            lemma_exec_grows(condition.machine, i.then_branch, fuel);
            match i.else_branch {
                Some(otherwise) => {
                    lemma_exec_grows(condition.machine, otherwise, fuel);
                },
                None => {},
            }
        },
        Stmt::While(w) => {
            lemma_while_grows(m, *w, fuel);
        },
        Stmt::Return(r) => {
            match r.value {
                Some(value) => {
                    lemma_eval_grows(m, value, fuel);
                },
                None => {},
            }
        },
        Stmt::Function(f) => {
            lemma_define_keeps_scopes(
                m.scopes,
                m.current,
                f.name.lexeme@,
                Value::Function(m.functions.len() as int),
            );
        },
        Stmt::Class(c) => {
            lemma_class_grows(m, *c);
        },
    }
}

/// Running a program leads to a state that has grown: what was printed
/// before is still there, and the current scope is the one it was.
pub proof fn lemma_run_grows(m: Machine, statements: Seq<Stmt>, fuel: nat)
    ensures
        grown(m, run(m, statements, fuel).machine),
{
    lemma_list_grows(m, statements, 0, fuel);
}


/// Whether the scopes of a state hang together: the current scope is in
/// the store; each scope is enclosed, if at all, by a scope that was made
/// before it, so that the enclosing links form no cycle; and each function
/// closes over a scope in the store.
pub open spec fn sound(m: Machine) -> bool {
    &&& 0 <= m.current < m.scopes.len()
    &&& forall|i: int|
        0 <= i < m.scopes.len() ==> match (#[trigger] m.scopes[i]).enclosing {
            Some(outer) => 0 <= outer < i,
            None => true,
        }
    &&& forall|f: int|
        0 <= f < m.functions.len() ==> 0 <= (#[trigger] m.functions[f]).closure < m.scopes.len()
}

/// The initial state is sound.
pub proof fn lemma_initial_is_sound(clock: int)
    ensures
        sound(initial(clock)),
{
}

/// Declaring methods gives each a closure as asked, and keeps the closures
/// of the functions that were there.
proof fn lemma_declare_methods_closures(
    functions: Seq<FunctionView>,
    table: Seq<BindingView>,
    methods: Seq<Rc<FunctionStmt>>,
    from: int,
    closure: int,
    scopes: int,
)
    requires
        0 <= closure < scopes,
        forall|f: int| 0 <= f < functions.len() ==> 0 <= (#[trigger] functions[f]).closure < scopes,
    ensures
        forall|f: int|
            0 <= f < declare_methods(functions, table, methods, from, closure).0.len() ==> 0 <= (
            #[trigger] declare_methods(functions, table, methods, from, closure).0[f]).closure
                < scopes,
    decreases methods.len() - from,
{
    if 0 <= from < methods.len() {
        let declaration = *methods[from];
        let more = functions.push(
            FunctionView {
                declaration,
                closure,
                is_initializer: declaration.name.lexeme@ == "init"@,
            },
        );
        lemma_declare_methods_closures(
            more,
            bind(table, declaration.name.lexeme@, Value::Function(functions.len() as int)),
            methods,
            from + 1,
            closure,
            scopes,
        );
    }
}

/// What a call is before any body runs is sound, and so is its frame's
/// scope.
proof fn lemma_prepare_sound(m: Machine, callee: Value, args: Seq<Value>, line: int)
    requires
        sound(m),
    ensures
        match prepare(m, callee, args, line) {
            Prepared::Failed(_) => true,
            Prepared::Done(machine, _) => sound(machine),
            Prepared::Frame { machine, scope, .. } => sound(machine) && 0 <= scope
                < machine.scopes.len(),
        },
{
    match callee {
        Value::Function(f) => {
            if 0 <= f < m.functions.len() {
                lemma_bind_parameters_links(
                    wrap(m.scopes, m.functions[f].closure),
                    m.scopes.len() as int,
                    m.functions[f].declaration.params@,
                    args,
                    0,
                );
            }
        },
        Value::Class(c) => {
            if 0 <= c < m.classes.len() {
                let instance = m.instances.len() as int;
                let made = Machine {
                    instances: m.instances.push(InstanceView { class: c, fields: Seq::empty() }),
                    ..m
                };
                match find_method(m.classes, c, "init"@) {
                    Some(Value::Function(init)) => {
                        if 0 <= init < m.functions.len() {
                            match bind_method(made, init, instance) {
                                Some((machine, bound_init)) => {
                                    assert(sound(machine));
                                    lemma_bind_parameters_links(
                                        wrap(machine.scopes, machine.functions[bound_init].closure),
                                        machine.scopes.len() as int,
                                        machine.functions[bound_init].declaration.params@,
                                        args,
                                        0,
                                    );
                                },
                                None => {},
                            }
                        }
                    },
                    _ => {},
                }
            }
        },
        _ => {},
    }
}

/// Executing a class declaration in a sound state leads to a sound state.
proof fn lemma_class_sound(m: Machine, c: ClassStmt)
    requires
        sound(m),
    ensures
        sound(exec_class(m, c).machine),
{
    match superclass_of(m, c) {
        Err(_) => {},
        Ok(parent) => {
            let name = c.name.lexeme@;
            let named = define(m.scopes, m.current, name, Value::Nil);
            let closure = match parent {
                Some(_) => named.len() as int,
                None => m.current,
            };
            let scopes = match parent {
                Some(k) => define(wrap(named, m.current), closure, "super"@, Value::Class(k)),
                None => named,
            };
            lemma_declare_methods_closures(
                m.functions,
                Seq::empty(),
                c.methods@,
                0,
                closure,
                scopes.len() as int,
            );
        },
    }
}

/// Evaluating an expression in a sound state leads to a sound state: no
/// cycle of enclosing scopes is ever made.
pub proof fn lemma_eval_sound(m: Machine, e: Expr, fuel: nat)
    requires
        sound(m),
    ensures
        sound(eval(m, e, fuel).machine),
    decreases fuel, 0nat, e, 0nat,
{
    match e {
        Expr::Literal(_) => {},
        Expr::Variable(_) => {},
        Expr::This(_) => {},
        Expr::Super(_) => {},
        Expr::Grouping(g) => {
            lemma_eval_sound(m, g.expression, fuel);
        },
        Expr::Unary(u) => {
            lemma_unary_sound(m, *u, fuel);
        },
        Expr::Binary(b) => {
            lemma_binary_sound(m, *b, fuel);
        },
        Expr::Logical(l) => {
            lemma_logical_sound(m, *l, fuel);
        },
        Expr::Conditional(c) => {
            lemma_conditional_sound(m, *c, fuel);
        },
        Expr::Assign(a) => {
            lemma_assign_sound(m, *a, fuel);
        },
        Expr::Get(g) => {
            lemma_get_sound(m, *g, fuel);
        },
        Expr::SetField(s) => {
            lemma_set_sound(m, *s, fuel);
        },
        Expr::Call(c) => {
            lemma_call_sound(m, *c, fuel);
        },
    }
}

proof fn lemma_unary_sound(m: Machine, e: UnaryExpr, fuel: nat)
    requires
        sound(m),
    ensures
        sound(eval_unary(m, e, fuel).machine),
    decreases fuel, 0nat, e, 0nat,
{
    lemma_eval_sound(m, e.right, fuel);
}

proof fn lemma_binary_sound(m: Machine, e: BinaryExpr, fuel: nat)
    requires
        sound(m),
    ensures
        sound(eval_binary(m, e, fuel).machine),
    decreases fuel, 0nat, e, 0nat,
{
    lemma_eval_sound(m, e.left, fuel);
    lemma_eval_sound(eval(m, e.left, fuel).machine, e.right, fuel);
}

proof fn lemma_logical_sound(m: Machine, e: LogicalExpr, fuel: nat)
    requires
        sound(m),
    ensures
        sound(eval_logical(m, e, fuel).machine),
    decreases fuel, 0nat, e, 0nat,
{
    lemma_eval_sound(m, e.left, fuel);
    lemma_eval_sound(eval(m, e.left, fuel).machine, e.right, fuel);
}

proof fn lemma_conditional_sound(m: Machine, e: ConditionalExpr, fuel: nat)
    requires
        sound(m),
    ensures
        sound(eval_conditional(m, e, fuel).machine),
    decreases fuel, 0nat, e, 0nat,
{
    lemma_eval_sound(m, e.condition, fuel);
    lemma_eval_sound(eval(m, e.condition, fuel).machine, e.left, fuel);
    lemma_eval_sound(eval(m, e.condition, fuel).machine, e.right, fuel);
}

proof fn lemma_assign_sound(m: Machine, e: AssignExpr, fuel: nat)
    requires
        sound(m),
    ensures
        sound(eval_assign(m, e, fuel).machine),
    decreases fuel, 0nat, e, 0nat,
{
    lemma_eval_sound(m, e.value, fuel);
}

proof fn lemma_get_sound(m: Machine, e: GetExpr, fuel: nat)
    requires
        sound(m),
    ensures
        sound(eval_get(m, e, fuel).machine),
    decreases fuel, 0nat, e, 0nat,
{
    lemma_eval_sound(m, e.object, fuel);
}

proof fn lemma_set_sound(m: Machine, e: SetExpr, fuel: nat)
    requires
        sound(m),
    ensures
        sound(eval_set(m, e, fuel).machine),
    decreases fuel, 0nat, e, 0nat,
{
    lemma_eval_sound(m, e.object, fuel);
    lemma_eval_sound(eval(m, e.object, fuel).machine, e.value, fuel);
}

proof fn lemma_call_sound(m: Machine, e: CallExpr, fuel: nat)
    requires
        sound(m),
    ensures
        sound(eval_call(m, e, fuel).machine),
    decreases fuel, 0nat, e, 0nat,
{
    lemma_eval_sound(m, e.callee, fuel);
    let callee = eval(m, e.callee, fuel);
    lemma_arguments_sound(callee.machine, e.arguments@, 0, Seq::empty(), fuel);
    let gathered = eval_arguments(callee.machine, e.arguments@, 0, Seq::empty(), fuel);
    match (callee.result, gathered.result) {
        (Ok(f), Ok(args)) => {
            lemma_prepare_sound(gathered.machine, f, args, e.paren.line as int);
            match prepare(gathered.machine, f, args, e.paren.line as int) {
                Prepared::Frame { machine, function, scope, forced } => {
                    if fuel > 0 {
                        lemma_block_sound(
                            machine,
                            machine.functions[function].declaration.body@,
                            scope,
                            (fuel - 1) as nat,
                        );
                    }
                },
                _ => {},
            }
        },
        _ => {},
    }
}

proof fn lemma_arguments_sound(
    m: Machine,
    args: Seq<Expr>,
    from: int,
    values: Seq<Value>,
    fuel: nat,
)
    requires
        sound(m),
    ensures
        sound(eval_arguments(m, args, from, values, fuel).machine),
    decreases fuel, 0nat, args, args.len() - from,
{
    if 0 <= from < args.len() {
        lemma_eval_sound(m, args[from], fuel);
        let next = eval(m, args[from], fuel);
        match next.result {
            Ok(v) => {
                lemma_arguments_sound(next.machine, args, from + 1, values.push(v), fuel);
            },
            Err(_) => {},
        }
    }
}

/// Executing a block in a scope of a sound state leads to a sound state.
pub proof fn lemma_block_sound(m: Machine, stmts: Seq<Stmt>, scope: int, fuel: nat)
    requires
        sound(m),
        0 <= scope < m.scopes.len(),
    ensures
        sound(exec_block(m, stmts, scope, fuel).machine),
    decreases fuel, 1nat, stmts, stmts.len() + 1,
{
    let inside = Machine { current: scope, ..m };
    lemma_list_sound(inside, stmts, 0, fuel);
    lemma_list_grows(inside, stmts, 0, fuel);
}

/// Executing statements in order in a sound state leads to a sound state.
pub proof fn lemma_list_sound(m: Machine, stmts: Seq<Stmt>, from: int, fuel: nat)
    requires
        sound(m),
    ensures
        sound(exec_list(m, stmts, from, fuel).machine),
    decreases fuel, 1nat, stmts, stmts.len() - from,
{
    if 0 <= from < stmts.len() {
        lemma_exec_sound(m, stmts[from], fuel);
        let first = exec(m, stmts[from], fuel);
        match first.result {
            Ok(_) => {
                lemma_list_sound(first.machine, stmts, from + 1, fuel);
            },
            Err(_) => {},
        }
    }
}

proof fn lemma_while_sound(m: Machine, w: WhileStmt, fuel: nat)
    requires
        sound(m),
    ensures
        sound(exec_while(m, w, fuel).machine),
    decreases fuel, 1nat, w, 0nat,
{
    lemma_eval_sound(m, w.condition, fuel);
    let condition = eval(m, w.condition, fuel);
    match condition.result {
        Ok(c) => {
            if is_truthy(c) {
                lemma_exec_sound(condition.machine, w.body, fuel);
                let body = exec(condition.machine, w.body, fuel);
                if body.result is Ok && fuel > 0 {
                    lemma_while_sound(body.machine, w, (fuel - 1) as nat);
                }
            }
        },
        Err(_) => {},
    }
}

/// Executing a statement in a sound state leads to a sound state.
pub proof fn lemma_exec_sound(m: Machine, s: Stmt, fuel: nat)
    requires
        sound(m),
    ensures
        sound(exec(m, s, fuel).machine),
    decreases fuel, 1nat, s, 0nat,
{
    match s {
        Stmt::Expression(x) => {
            lemma_eval_sound(m, x.expression, fuel);
        },
        Stmt::Print(p) => {
            lemma_eval_sound(m, p.expression, fuel);
        },
        Stmt::Var(v) => {
            match v.initializer {
                Some(initializer) => {
                    lemma_eval_sound(m, initializer, fuel);
                },
                None => {},
            }
        },
        Stmt::Block(b) => {
            lemma_block_sound(
                Machine { scopes: wrap(m.scopes, m.current), ..m },
                b.statements@,
                m.scopes.len() as int,
                fuel,
            );
        },
        Stmt::If(i) => {
            lemma_eval_sound(m, i.condition, fuel);
            let condition = eval(m, i.condition, fuel);
            lemma_exec_sound(condition.machine, i.then_branch, fuel);
            match i.else_branch {
                Some(otherwise) => {
                    lemma_exec_sound(condition.machine, otherwise, fuel);
                },
                None => {},
            }
        },
        Stmt::While(w) => {
            lemma_while_sound(m, *w, fuel);
        },
        Stmt::Return(r) => {
            match r.value {
                Some(value) => {
                    lemma_eval_sound(m, value, fuel);
                },
                None => {},
            }
        },
        Stmt::Function(_) => {},
        Stmt::Class(c) => {
            lemma_class_sound(m, *c);
        },
    }
}

/// Every state that a program leads to from the initial state is sound.
pub proof fn lemma_run_sound(clock: int, statements: Seq<Stmt>, fuel: nat)
    ensures
        sound(run(initial(clock), statements, fuel).machine),
{
    lemma_list_sound(initial(clock), statements, 0, fuel);
}

} // verus!
