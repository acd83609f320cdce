//! The interpreter: evaluates expressions and executes statements over the
//! stores of scopes, functions, classes and instances.
//!
//! Every function here does to the interpreter exactly what the function of
//! the same purpose in [`crate::machine`] does to the interpreter's state as
//! plain values.

use crate::environment::{bindings_view, read_binding, write_binding, Binding, Environments};
use crate::expr::{
    AssignExpr, BinaryExpr, CallExpr, ConditionalExpr, Expr, GetExpr, Literal, LogicalExpr, Native,
    SetExpr, SuperExpr, UnaryExpr, Value,
};
use crate::functions::{functions_view, share, LoxFunction};
use crate::lox_class::{
    classes_view, find_method_in, instances_view, InstanceView, LoxClass, LoxInstance,
};
use crate::lox_result::{lines_view, LoxResult, Outcome};
use crate::machine::{
    arity_mismatch, bind_method, bind_parameters, bound_method, budget_exhausted,
    declare_function, declare_methods, display, eval, eval_arguments, eval_assign, eval_binary,
    eval_call, eval_conditional, eval_get, eval_logical, eval_set, eval_super, eval_unary, exec,
    exec_block, exec_class, exec_list, exec_while, finish, frame, initial, look_up, prepare,
    property, run, set_field, store, superclass_of, undefined_property, undefined_variable,
    Executed, Machine, Prepared,
};
use crate::number::Number;
use crate::operators::{
    apply_binary, apply_unary, check_num, equal, is_equal, is_truthy, runtime, truthy,
    value_result, write_number,
};
use crate::stmt::{ClassStmt, FunctionStmt, Stmt, WhileStmt};
use crate::text::{chars_of, push_decimal, push_str, text_of};
use crate::token::{Kind, Token};
use std::collections::HashMap;
use std::rc::Rc;
use vstd::prelude::*;

verus! {

broadcast use vstd::std_specs::hash::group_hash_axioms;

/// The interpreter: the stores, the current scope, the resolver's bindings,
/// the lines printed, the budget of an evaluation, and the clock's reading.
pub struct Interpreter {
    /// The index of the current scope.
    pub environment: usize,
    environments: Environments,
    functions: Vec<LoxFunction>,
    classes: Vec<LoxClass>,
    instances: Vec<LoxInstance>,
    locals: HashMap<usize, usize>,
    output: Vec<String>,
    budget: usize,
    clock: Number,
}

/// The values, each as plain values.
pub open spec fn values_view(values: Seq<Literal>) -> Seq<Value> {
    Seq::new(values.len(), |i: int| values[i]@)
}

/// The result of executing a statement, as plain values.
pub open spec fn unit_result(r: Result<(), LoxResult>) -> Result<(), Outcome> {
    match r {
        Ok(_) => Ok(()),
        Err(e) => Err(e@),
    }
}

/// What a call is once its callee and arguments are known and before any
/// body runs.
pub enum Call {
    /// The call fails.
    Failed(LoxResult),
    /// The call is over, with this value.
    Done(Literal),
    /// The body of the function at `function` is to run in scope `scope`;
    /// the call then gives `forced` if that is a value.
    Frame { function: usize, scope: usize, forced: Option<Literal> },
}

/// An option of a value, as plain values.
pub open spec fn option_view(v: Option<Literal>) -> Option<Value> {
    match v {
        Some(x) => Some(x@),
        None => None,
    }
}

impl Call {
    /// This call in the state `m`, as plain values.
    pub open spec fn prepared(self, m: Machine) -> Prepared {
        match self {
            Call::Failed(e) => Prepared::Failed(e@),
            Call::Done(v) => Prepared::Done(m, v@),
            Call::Frame { function, scope, forced } => Prepared::Frame {
                machine: m,
                function: function as int,
                scope: scope as int,
                forced: option_view(forced),
            },
        }
    }
}

fn quoted_error(token: &Token, before: &str, name: &str, after: &str) -> (e: LoxResult)
    ensures
        e@ == runtime(token.line as int, before@ + name@ + after@),
{
    let mut out: Vec<char> = Vec::new();
    push_str(&mut out, before);
    push_str(&mut out, name);
    push_str(&mut out, after);
    assert(out@ =~= before@ + name@ + after@);
    LoxResult::RuntimeError { line: token.line, message: text_of(&out) }
}

fn undefined_variable_error(token: &Token, name: &str) -> (e: LoxResult)
    ensures
        e@ == runtime(token.line as int, undefined_variable(name@)),
{
    quoted_error(token, "Undefined variable '", name, "'.")
}

fn undefined_property_error(token: &Token) -> (e: LoxResult)
    ensures
        e@ == runtime(token.line as int, undefined_property(token.lexeme@)),
{
    quoted_error(token, "Undefined property '", token.lexeme.as_str(), "'.")
}

fn arity_error(line: usize, expected: usize, got: usize) -> (e: LoxResult)
    ensures
        e@ == runtime(line as int, arity_mismatch(expected as nat, got as nat)),
{
    let mut out: Vec<char> = Vec::new();
    push_str(&mut out, "Expected ");
    push_decimal(&mut out, expected as u128);
    push_str(&mut out, " arguments but got ");
    push_decimal(&mut out, got as u128);
    push_str(&mut out, ".");
    assert(out@ =~= arity_mismatch(expected as nat, got as nat));
    LoxResult::RuntimeError { line, message: text_of(&out) }
}

fn budget_error(line: usize) -> (e: LoxResult)
    ensures
        e@ == runtime(line as int, budget_exhausted()),
{
    LoxResult::RuntimeError { line, message: String::from_str("Execution budget exhausted.") }
}

impl View for Interpreter {
    type V = Machine;

    closed spec fn view(&self) -> Machine {
        Machine {
            scopes: self.environments@,
            functions: functions_view(self.functions@),
            classes: classes_view(self.classes@),
            instances: instances_view(self.instances@),
            current: self.environment as int,
            locals: self.locals@,
            output: lines_view(self.output@),
            clock: self.clock.units as int,
        }
    }
}

impl Interpreter {
    /// The budget that each evaluation is given.
    pub closed spec fn fuel(&self) -> nat {
        self.budget as nat
    }

    /// An interpreter in the initial state, with the largest budget and a
    /// clock that reads zero.
    pub fn new() -> (interpreter: Interpreter)
        ensures
            interpreter@ == initial(0),
            interpreter.fuel() == usize::MAX,
    {
        let mut environments = Environments::new();
        environments.define(0, "clock", Literal::NativeFunction(Native::Clock));
        let interpreter = Interpreter {
            environment: 0,
            environments,
            functions: Vec::new(),
            classes: Vec::new(),
            instances: Vec::new(),
            locals: HashMap::new(),
            output: Vec::new(),
            budget: usize::MAX,
            clock: Number::zero(),
        };
        proof {
            let m = interpreter@;
            let i = initial(0);
            assert(m.scopes[0].bindings =~= i.scopes[0].bindings);
            assert(m.scopes =~= i.scopes);
            assert(m.functions =~= i.functions);
            assert(m.classes =~= i.classes);
            assert(m.instances =~= i.instances);
            assert(m.output =~= i.output);
            assert(m.locals =~= i.locals);
        }
        interpreter
    }

    /// Sets the budget that each evaluation is given.
    pub fn set_budget(&mut self, budget: usize)
        ensures
            final(self)@ == old(self)@,
            final(self).fuel() == budget,
    {
        self.budget = budget;
    }

    /// Sets what the native `clock` gives.
    pub fn set_clock(&mut self, now: Number)
        ensures
            final(self)@ == (Machine { clock: now.units as int, ..old(self)@ }),
            final(self).fuel() == old(self).fuel(),
    {
        self.clock = now;
    }

    /// The lines printed so far.
    pub fn output(&self) -> (lines: &Vec<String>)
        ensures
            lines_view(lines@) == self@.output,
    {
        &self.output
    }

    /// Records that the variable-shaped expression `expr` is bound `depth`
    /// scopes outward from where it stands. Any other expression is left
    /// out.
    pub fn resolve(&mut self, expr: &Expr, depth: usize)
        ensures
            final(self).fuel() == old(self).fuel(),
            final(self)@ == (Machine {
                locals: match expression_id(*expr) {
                    Some(id) => old(self)@.locals.insert(id, depth),
                    None => old(self)@.locals,
                },
                ..old(self)@
            }),
    {
        match id_of(expr) {
            Some(id) => {
                self.locals.insert(id, depth);
            },
            None => {},
        }
    }

    fn depth_of(&self, id: usize) -> (depth: Option<usize>)
        ensures
            match depth {
                Some(d) => self@.locals.dom().contains(id) && self@.locals[id] == d,
                None => !self@.locals.dom().contains(id),
            },
    {
        match self.locals.get(&id) {
            Some(d) => Some(*d),
            None => None,
        }
    }

    /// The value of the variable-shaped expression `id` named by `name`.
    fn look_up_variable(&self, name: &Token, id: usize) -> (r: Result<Literal, LoxResult>)
        ensures
            value_result(r) == look_up(self@, id, *name),
    {
        let found = match self.depth_of(id) {
            Some(depth) => self.environments.get_at(self.environment, depth, name.lexeme.as_str()),
            None => self.environments.get(self.environment, name.lexeme.as_str()),
        };
        match found {
            Some(v) => Ok(v),
            None => Err(undefined_variable_error(name, name.lexeme.as_str())),
        }
    }

    /// Gives `name` the value `value`, at the resolved depth of the
    /// expression `id` where it has one, else along the chain of scopes.
    fn store(&mut self, id: usize, name: &Token, value: Literal) -> (r: Result<Literal, LoxResult>)
        ensures
            final(self).fuel() == old(self).fuel(),
            final(self)@ == store(old(self)@, id, *name, value@).machine,
            value_result(r) == store(old(self)@, id, *name, value@).result,
    {
        let done = match self.depth_of(id) {
            Some(depth) => self.environments.assign_at(
                self.environment,
                depth,
                name.lexeme.as_str(),
                value.clone(),
            ),
            None => self.environments.assign(self.environment, name.lexeme.as_str(), value.clone()),
        };
        if done {
            Ok(value)
        } else {
            Err(undefined_variable_error(name, name.lexeme.as_str()))
        }
    }

    /// Binds the function at `function` to the instance at `instance` and
    /// gives the index of the bound function.
    fn bind_method(&mut self, function: usize, instance: usize) -> (made: Option<usize>)
        ensures
            final(self).fuel() == old(self).fuel(),
            match bind_method(old(self)@, function as int, instance as int) {
                Some((m, index)) => final(self)@ == m && made is Some && made->0 as int == index
                    && made->0 < final(self).functions.len(),
                None => final(self)@ == old(self)@ && made is None,
            },
    {
        if function < self.functions.len() {
            let scope = self.environments.wrap(self.functions[function].closure);
            self.environments.define(scope, "this", Literal::Instance(instance));
            let bound_function = LoxFunction::new(
                share(&self.functions[function].declaration),
                scope,
                self.functions[function].is_initializer,
            );
            let index = self.functions.len();
            self.functions.push(bound_function);
            proof {
                match bind_method(old(self)@, function as int, instance as int) {
                    Some((m, _)) => {
                        assert(self@.functions =~= m.functions);
                    },
                    None => {},
                }
            }
            Some(index)
        } else {
            None
        }
    }

    /// The method found, bound to the instance at `instance`.
    fn bound_method(&mut self, method: Option<Literal>, instance: usize, name: &Token) -> (r:
        Result<Literal, LoxResult>)
        ensures
            final(self).fuel() == old(self).fuel(),
            final(self)@ == bound_method(
                old(self)@,
                option_view(method),
                instance as int,
                *name,
            ).machine,
            value_result(r) == bound_method(
                old(self)@,
                option_view(method),
                instance as int,
                *name,
            ).result,
    {
        match method {
            Some(Literal::Function(f)) => match self.bind_method(f, instance) {
                Some(index) => Ok(Literal::Function(index)),
                None => Err(undefined_property_error(name)),
            },
            _ => Err(undefined_property_error(name)),
        }
    }

    /// The property `name` of `object`.
    fn property(&mut self, object: &Literal, name: &Token) -> (r: Result<Literal, LoxResult>)
        ensures
            final(self).fuel() == old(self).fuel(),
            final(self)@ == property(old(self)@, object@, *name).machine,
            value_result(r) == property(old(self)@, object@, *name).result,
    {
        match object {
            Literal::Instance(i) => {
                if *i < self.instances.len() {
                    match read_binding(&self.instances[*i].fields, name.lexeme.as_str()) {
                        Some(v) => Ok(v),
                        None => {
                            let method = find_method_in(
                                &self.classes,
                                self.instances[*i].class,
                                name.lexeme.as_str(),
                            );
                            self.bound_method(method, *i, name)
                        },
                    }
                } else {
                    Err(LoxResult::runtime_error(name, "Only instances have properties."))
                }
            },
            _ => Err(LoxResult::runtime_error(name, "Only instances have properties.")),
        }
    }

    /// What `super.method` gives.
    fn evaluate_super(&mut self, e: &SuperExpr) -> (r: Result<Literal, LoxResult>)
        ensures
            final(self).fuel() == old(self).fuel(),
            final(self)@ == eval_super(old(self)@, *e).machine,
            value_result(r) == eval_super(old(self)@, *e).result,
    {
        match self.depth_of(e.id) {
            None => Err(undefined_variable_error(&e.keyword, "super")),
            Some(depth) => {
                match self.environments.get_at(self.environment, depth, "super") {
                    Some(Literal::Class(class)) => {
                        if depth == 0 {
                            return Err(undefined_variable_error(&e.keyword, "this"));
                        }
                        match self.environments.get_at(self.environment, depth - 1, "this") {
                            Some(Literal::Instance(i)) => {
                                let method = find_method_in(
                                    &self.classes,
                                    class,
                                    e.method.lexeme.as_str(),
                                );
                                self.bound_method(method, i, &e.method)
                            },
                            _ => Err(undefined_variable_error(&e.keyword, "this")),
                        }
                    },
                    _ => Err(undefined_variable_error(&e.keyword, "super")),
                }
            },
        }
    }

    /// Gives the field `name` of the instance at `instance` the value
    /// `value`.
    fn set_field(&mut self, instance: usize, name: &Token, value: Literal) -> (r: Result<
        Literal,
        LoxResult,
    >)
        ensures
            final(self).fuel() == old(self).fuel(),
            final(self)@ == set_field(old(self)@, instance as int, *name, value@).machine,
            value_result(r) == set_field(old(self)@, instance as int, *name, value@).result,
    {
        if instance < self.instances.len() {
            write_binding(&mut self.instances[instance].fields, name.lexeme.as_str(), value.clone());
            assert(self@.instances =~= set_field(
                old(self)@,
                instance as int,
                *name,
                value@,
            ).machine.instances);
            Ok(value)
        } else {
            Err(LoxResult::runtime_error(name, "Only instances have fields."))
        }
    }

    /// The display form of a value.
    fn display(&self, v: &Literal) -> (s: String)
        ensures
            s@ == display(self@, v@),
    {
        match v {
            Literal::Nil => String::from_str("nil"),
            Literal::Boolean(b) => if *b {
                String::from_str("true")
            } else {
                String::from_str("false")
            },
            Literal::Number(n) => text_of(&write_number(*n)),
            Literal::String(s) => s.clone(),
            Literal::Function(f) => {
                if *f < self.functions.len() {
                    let mut out: Vec<char> = Vec::new();
                    push_str(&mut out, "<fn ");
                    push_str(&mut out, self.functions[*f].declaration.name.lexeme.as_str());
                    push_str(&mut out, ">");
                    assert(out@ =~= display(self@, v@));
                    text_of(&out)
                } else {
                    String::from_str("<fn>")
                }
            },
            Literal::NativeFunction(_) => String::from_str("<native fn>"),
            Literal::Class(c) => {
                if *c < self.classes.len() {
                    self.classes[*c].name.clone()
                } else {
                    String::from_str("<class>")
                }
            },
            Literal::Instance(i) => {
                if *i < self.instances.len() && self.instances[*i].class < self.classes.len() {
                    let mut out: Vec<char> = Vec::new();
                    push_str(&mut out, "<");
                    push_str(&mut out, self.classes[self.instances[*i].class].name.as_str());
                    push_str(&mut out, " instance>");
                    assert(out@ =~= display(self@, v@));
                    text_of(&out)
                } else {
                    String::from_str("<instance>")
                }
            },
        }
    }

    /// The frame for a call of the function at `function`.
    fn frame(&mut self, function: usize, args: &Vec<Literal>, line: usize, forced: Option<Literal>)
        -> (call: Call)
        requires
            function < old(self).functions.len(),
        ensures
            final(self).fuel() == old(self).fuel(),
            call.prepared(final(self)@) == frame(
                old(self)@,
                function as int,
                values_view(args@),
                line as int,
                option_view(forced),
            ),
            call is Failed ==> final(self)@ == old(self)@,
            final(self).functions == old(self).functions,
    {
        let arity = self.functions[function].get_arity();
        if arity != args.len() {
            return Call::Failed(arity_error(line, arity, args.len()));
        }
        let declaration = share(&self.functions[function].declaration);
        let scope = self.environments.wrap(self.functions[function].closure);
        let ghost wrapped = self.environments@;
        let mut i: usize = 0;
        while i < declaration.params.len()
            invariant
                i <= declaration.params.len() == args.len(),
                self.budget == old(self).budget,
                self.functions == old(self).functions,
                self@ == (Machine { scopes: self.environments@, ..old(self)@ }),
                bind_parameters(
                    self.environments@,
                    scope as int,
                    declaration.params@,
                    values_view(args@),
                    i as int,
                ) == bind_parameters(
                    wrapped,
                    scope as int,
                    declaration.params@,
                    values_view(args@),
                    0,
                ),
            decreases declaration.params.len() - i,
        {
            self.environments.define(scope, declaration.params[i].lexeme.as_str(), args[i].clone());
            i += 1;
        }
        Call::Frame { function, scope, forced }
    }

    /// What calling `callee` with `args` is before any body runs.
    fn prepare(&mut self, callee: &Literal, args: &Vec<Literal>, line: usize) -> (call: Call)
        ensures
            final(self).fuel() == old(self).fuel(),
            call.prepared(final(self)@) == prepare(
                old(self)@,
                callee@,
                values_view(args@),
                line as int,
            ),
            call is Failed ==> final(self)@ == old(self)@,
            call matches Call::Frame { function, .. } ==> function < final(self).functions.len(),
    {
        match callee {
            Literal::Function(f) => {
                if *f < self.functions.len() {
                    self.frame(*f, args, line, None)
                } else {
                    Call::Failed(
                        LoxResult::RuntimeError {
                            line,
                            message: String::from_str("Can only call functions and classes."),
                        },
                    )
                }
            },
            Literal::NativeFunction(Native::Clock) => {
                if args.len() != 0 {
                    Call::Failed(arity_error(line, 0, args.len()))
                } else {
                    Call::Done(Literal::Number(self.clock))
                }
            },
            Literal::Class(c) => {
                if *c < self.classes.len() {
                    match find_method_in(&self.classes, *c, "init") {
                        Some(Literal::Function(init)) => {
                            if init < self.functions.len() {
                                let arity = self.functions[init].get_arity();
                                if arity != args.len() {
                                    return Call::Failed(arity_error(line, arity, args.len()));
                                }
                                let instance = self.instances.len();
                                self.instances.push(LoxInstance::new(*c));
                                assert(self@.instances =~= old(self)@.instances.push(
                                    InstanceView { class: *c as int, fields: Seq::empty() },
                                ));
                                match self.bind_method(init, instance) {
                                    Some(bound_init) => self.frame(
                                        bound_init,
                                        args,
                                        line,
                                        Some(Literal::Instance(instance)),
                                    ),
                                    None => Call::Failed(
                                        LoxResult::RuntimeError {
                                            line,
                                            message: String::from_str(
                                                "Can only call functions and classes.",
                                            ),
                                        },
                                    ),
                                }
                            } else {
                                Call::Failed(
                                    LoxResult::RuntimeError {
                                        line,
                                        message: String::from_str(
                                            "Can only call functions and classes.",
                                        ),
                                    },
                                )
                            }
                        },
                        _ => {
                            if args.len() != 0 {
                                Call::Failed(arity_error(line, 0, args.len()))
                            } else {
                                let instance = self.instances.len();
                                self.instances.push(LoxInstance::new(*c));
                                assert(self@.instances =~= old(self)@.instances.push(
                                    InstanceView { class: *c as int, fields: Seq::empty() },
                                ));
                                Call::Done(Literal::Instance(instance))
                            }
                        },
                    }
                } else {
                    Call::Failed(
                        LoxResult::RuntimeError {
                            line,
                            message: String::from_str("Can only call functions and classes."),
                        },
                    )
                }
            },
            _ => Call::Failed(
                LoxResult::RuntimeError {
                    line,
                    message: String::from_str("Can only call functions and classes."),
                },
            ),
        }
    }

    /// What a call gives once the body of the function at `function` has
    /// run with `result`.
    fn finish(&self, result: Result<(), LoxResult>, function: usize, forced: Option<Literal>) -> (r:
        Result<Literal, LoxResult>)
        ensures
            value_result(r) == finish(
                self@,
                unit_result(result),
                function as int,
                option_view(forced),
            ),
    {
        let returned = match result {
            Ok(_) => Literal::Nil,
            Err(LoxResult::Return(v)) => v,
            Err(e) => {
                return Err(e);
            },
        };
        match forced {
            Some(value) => Ok(value),
            None => {
                if function < self.functions.len() && self.functions[function].is_initializer {
                    match self.environments.get_at(self.functions[function].closure, 0, "this") {
                        Some(this) => Ok(this),
                        None => Ok(Literal::Nil),
                    }
                } else {
                    Ok(returned)
                }
            },
        }
    }

    /// Makes a function from `declaration`, closed over the current scope,
    /// and defines its name there.
    fn declare_function(&mut self, declaration: &Rc<FunctionStmt>)
        ensures
            final(self).fuel() == old(self).fuel(),
            final(self)@ == declare_function(old(self)@, **declaration),
    {
        let index = self.functions.len();
        self.functions.push(LoxFunction::new(share(declaration), self.environment, false));
        self.environments.define(
            self.environment,
            declaration.name.lexeme.as_str(),
            Literal::Function(index),
        );
        assert(self@.functions =~= declare_function(old(self)@, **declaration).functions);
    }

    /// The class that a superclass clause names, if there is a clause.
    fn superclass_of(&self, c: &ClassStmt) -> (r: Result<Option<usize>, LoxResult>)
        ensures
            match r {
                Ok(Some(k)) => superclass_of(self@, *c) == Ok::<Option<int>, Outcome>(
                    Some(k as int),
                ),
                Ok(None) => superclass_of(self@, *c) == Ok::<Option<int>, Outcome>(None),
                Err(e) => superclass_of(self@, *c) == Err::<Option<int>, Outcome>(e@),
            },
    {
        match &c.superclass {
            Some(v) => match self.look_up_variable(&v.name, v.id) {
                Ok(Literal::Class(k)) => Ok(Some(k)),
                Ok(_) => Err(LoxResult::runtime_error(&v.name, "Superclass must be a class.")),
                Err(e) => Err(e),
            },
            None => Ok(None),
        }
    }

    /// Executes a class declaration.
    fn execute_class(&mut self, c: &ClassStmt) -> (r: Result<(), LoxResult>)
        ensures
            final(self).fuel() == old(self).fuel(),
            final(self)@ == exec_class(old(self)@, *c).machine,
            unit_result(r) == exec_class(old(self)@, *c).result,
    {
        let parent = match self.superclass_of(c) {
            Ok(parent) => parent,
            Err(e) => {
                return Err(e);
            },
        };
        let name = c.name.lexeme.as_str();
        self.environments.define(self.environment, name, Literal::Nil);
        let closure = match parent {
            Some(k) => {
                let scope = self.environments.wrap(self.environment);
                self.environments.define(scope, "super", Literal::Class(k));
                scope
            },
            None => self.environment,
        };
        let mut table: Vec<Binding> = Vec::new();
        let mut i: usize = 0;
        let ghost scopes = self.environments@;
        assert(bindings_view(table@) =~= Seq::empty());
        while i < c.methods.len()
            invariant
                i <= c.methods.len(),
                self.budget == old(self).budget,
                self.environments@ == scopes,
                self@ == (Machine {
                    scopes: self.environments@,
                    functions: functions_view(self.functions@),
                    ..old(self)@
                }),
                declare_methods(
                    functions_view(self.functions@),
                    bindings_view(table@),
                    c.methods@,
                    i as int,
                    closure as int,
                ) == declare_methods(
                    old(self)@.functions,
                    Seq::empty(),
                    c.methods@,
                    0,
                    closure as int,
                ),
            decreases c.methods.len() - i,
        {
            let declaration = &c.methods[i];
            let index = self.functions.len();
            let ghost before = functions_view(self.functions@);
            let is_initializer = crate::text::same_text(
                &chars_of(declaration.name.lexeme.as_str()),
                &chars_of("init"),
            );
            let function = LoxFunction::new(share(declaration), closure, is_initializer);
            self.functions.push(function);
            assert(functions_view(self.functions@) =~= before.push(function@));
            write_binding(&mut table, declaration.name.lexeme.as_str(), Literal::Function(index));
            i += 1;
        }
        let index = self.classes.len();
        let class = LoxClass::new(name, parent, table);
        self.classes.push(class);
        assert(self@.classes =~= old(self)@.classes.push(class@));
        if self.environments.assign(self.environment, name, Literal::Class(index)) {
            Ok(())
        } else {
            Err(undefined_variable_error(&c.name, name))
        }
    }

    /// Evaluates an expression with a budget of `fuel`.
    fn evaluate_with(&mut self, expr: &Expr, fuel: usize) -> (r: Result<Literal, LoxResult>)
        ensures
            final(self).fuel() == old(self).fuel(),
            final(self)@ == eval(old(self)@, *expr, fuel as nat).machine,
            value_result(r) == eval(old(self)@, *expr, fuel as nat).result,
        decreases fuel, 0nat, expr, 0nat,
    {
        match expr {
            Expr::Literal(v) => Ok(v.clone()),
            Expr::Grouping(g) => self.evaluate_with(&g.expression, fuel),
            Expr::Unary(u) => self.evaluate_unary(u, fuel),
            Expr::Binary(b) => self.evaluate_binary(b, fuel),
            Expr::Logical(l) => self.evaluate_logical(l, fuel),
            Expr::Conditional(c) => self.evaluate_conditional(c, fuel),
            Expr::Variable(v) => self.look_up_variable(&v.name, v.id),
            Expr::This(t) => self.look_up_variable(&t.keyword, t.id),
            Expr::Assign(a) => self.evaluate_assign(a, fuel),
            Expr::Call(c) => self.evaluate_call(c, fuel),
            Expr::Get(g) => self.evaluate_get(g, fuel),
            Expr::SetField(s) => self.evaluate_set(s, fuel),
            Expr::Super(s) => self.evaluate_super(s),
        }
    }

    fn evaluate_unary(&mut self, e: &UnaryExpr, fuel: usize) -> (r: Result<Literal, LoxResult>)
        ensures
            final(self).fuel() == old(self).fuel(),
            final(self)@ == eval_unary(old(self)@, *e, fuel as nat).machine,
            value_result(r) == eval_unary(old(self)@, *e, fuel as nat).result,
        decreases fuel, 0nat, e, 0nat,
    {
        match self.evaluate_with(&e.right, fuel) {
            Ok(v) => apply_unary(&e.operator, &v),
            Err(error) => Err(error),
        }
    }

    fn evaluate_binary(&mut self, e: &BinaryExpr, fuel: usize) -> (r: Result<Literal, LoxResult>)
        ensures
            final(self).fuel() == old(self).fuel(),
            final(self)@ == eval_binary(old(self)@, *e, fuel as nat).machine,
            value_result(r) == eval_binary(old(self)@, *e, fuel as nat).result,
        decreases fuel, 0nat, e, 0nat,
    {
        match self.evaluate_with(&e.left, fuel) {
            Ok(left) => match self.evaluate_with(&e.right, fuel) {
                Ok(right) => apply_binary(&e.operator, &left, &right),
                Err(error) => Err(error),
            },
            Err(error) => Err(error),
        }
    }

    fn evaluate_logical(&mut self, e: &LogicalExpr, fuel: usize) -> (r: Result<Literal, LoxResult>)
        ensures
            final(self).fuel() == old(self).fuel(),
            final(self)@ == eval_logical(old(self)@, *e, fuel as nat).machine,
            value_result(r) == eval_logical(old(self)@, *e, fuel as nat).result,
        decreases fuel, 0nat, e, 0nat,
    {
        match self.evaluate_with(&e.left, fuel) {
            Ok(left) => {
                if (e.operator.kind() == Kind::Or) == truthy(&left) {
                    Ok(left)
                } else {
                    self.evaluate_with(&e.right, fuel)
                }
            },
            Err(error) => Err(error),
        }
    }

    fn evaluate_conditional(&mut self, e: &ConditionalExpr, fuel: usize) -> (r: Result<
        Literal,
        LoxResult,
    >)
        ensures
            final(self).fuel() == old(self).fuel(),
            final(self)@ == eval_conditional(old(self)@, *e, fuel as nat).machine,
            value_result(r) == eval_conditional(old(self)@, *e, fuel as nat).result,
        decreases fuel, 0nat, e, 0nat,
    {
        match self.evaluate_with(&e.condition, fuel) {
            Ok(condition) => {
                if truthy(&condition) {
                    self.evaluate_with(&e.left, fuel)
                } else {
                    self.evaluate_with(&e.right, fuel)
                }
            },
            Err(error) => Err(error),
        }
    }

    fn evaluate_assign(&mut self, e: &AssignExpr, fuel: usize) -> (r: Result<Literal, LoxResult>)
        ensures
            final(self).fuel() == old(self).fuel(),
            final(self)@ == eval_assign(old(self)@, *e, fuel as nat).machine,
            value_result(r) == eval_assign(old(self)@, *e, fuel as nat).result,
        decreases fuel, 0nat, e, 0nat,
    {
        match self.evaluate_with(&e.value, fuel) {
            Ok(value) => self.store(e.id, &e.name, value),
            Err(error) => Err(error),
        }
    }

    fn evaluate_get(&mut self, e: &GetExpr, fuel: usize) -> (r: Result<Literal, LoxResult>)
        ensures
            final(self).fuel() == old(self).fuel(),
            final(self)@ == eval_get(old(self)@, *e, fuel as nat).machine,
            value_result(r) == eval_get(old(self)@, *e, fuel as nat).result,
        decreases fuel, 0nat, e, 0nat,
    {
        match self.evaluate_with(&e.object, fuel) {
            Ok(object) => self.property(&object, &e.name),
            Err(error) => Err(error),
        }
    }

    fn evaluate_set(&mut self, e: &SetExpr, fuel: usize) -> (r: Result<Literal, LoxResult>)
        ensures
            final(self).fuel() == old(self).fuel(),
            final(self)@ == eval_set(old(self)@, *e, fuel as nat).machine,
            value_result(r) == eval_set(old(self)@, *e, fuel as nat).result,
        decreases fuel, 0nat, e, 0nat,
    {
        match self.evaluate_with(&e.object, fuel) {
            Ok(Literal::Instance(i)) => match self.evaluate_with(&e.value, fuel) {
                Ok(value) => self.set_field(i, &e.name, value),
                Err(error) => Err(error),
            },
            Ok(_) => Err(LoxResult::runtime_error(&e.name, "Only instances have fields.")),
            Err(error) => Err(error),
        }
    }

    /// Evaluates the arguments left to right.
    fn evaluate_arguments(&mut self, args: &Vec<Expr>, fuel: usize) -> (r: Result<
        Vec<Literal>,
        LoxResult,
    >)
        ensures
            final(self).fuel() == old(self).fuel(),
            final(self)@ == eval_arguments(
                old(self)@,
                args@,
                0,
                Seq::empty(),
                fuel as nat,
            ).machine,
            match r {
                Ok(values) => eval_arguments(
                    old(self)@,
                    args@,
                    0,
                    Seq::empty(),
                    fuel as nat,
                ).result == Ok::<Seq<Value>, Outcome>(values_view(values@)),
                Err(e) => eval_arguments(
                    old(self)@,
                    args@,
                    0,
                    Seq::empty(),
                    fuel as nat,
                ).result == Err::<Seq<Value>, Outcome>(e@),
            },
        decreases fuel, 0nat, args@, args@.len(),
    {
        let mut values: Vec<Literal> = Vec::new();
        let mut i: usize = 0;
        assert(values_view(values@) =~= Seq::empty());
        while i < args.len()
            invariant
                i <= args.len(),
                self.fuel() == old(self).fuel(),
                eval_arguments(self@, args@, i as int, values_view(values@), fuel as nat)
                    == eval_arguments(old(self)@, args@, 0, Seq::empty(), fuel as nat),
            decreases args.len() - i,
        {
            let ghost before = values_view(values@);
            match self.evaluate_with(&args[i], fuel) {
                Ok(v) => {
                    values.push(v);
                    assert(values_view(values@) =~= before.push(v@));
                },
                Err(e) => {
                    return Err(e);
                },
            }
            i += 1;
        }
        Ok(values)
    }

    fn evaluate_call(&mut self, e: &CallExpr, fuel: usize) -> (r: Result<Literal, LoxResult>)
        ensures
            final(self).fuel() == old(self).fuel(),
            final(self)@ == eval_call(old(self)@, *e, fuel as nat).machine,
            value_result(r) == eval_call(old(self)@, *e, fuel as nat).result,
        decreases fuel, 0nat, e, 0nat,
    {
        let callee = match self.evaluate_with(&e.callee, fuel) {
            Ok(callee) => callee,
            Err(error) => {
                return Err(error);
            },
        };
        let args = match self.evaluate_arguments(&e.arguments, fuel) {
            Ok(args) => args,
            Err(error) => {
                return Err(error);
            },
        };
        match self.prepare(&callee, &args, e.paren.line) {
            Call::Failed(error) => Err(error),
            Call::Done(v) => Ok(v),
            Call::Frame { function, scope, forced } => {
                if fuel == 0 {
                    return Err(budget_error(e.paren.line));
                }
                let declaration = share(&self.functions[function].declaration);
                let result = self.execute_block_in(&declaration.body, scope, fuel - 1);
                self.finish(result, function, forced)
            },
        }
    }

    /// Executes `statements` in scope `environment`, then goes back to the
    /// scope that was current.
    fn execute_block_in(&mut self, statements: &Vec<Stmt>, environment: usize, fuel: usize) -> (r:
        Result<(), LoxResult>)
        ensures
            final(self).fuel() == old(self).fuel(),
            final(self)@ == exec_block(
                old(self)@,
                statements@,
                environment as int,
                fuel as nat,
            ).machine,
            unit_result(r) == exec_block(
                old(self)@,
                statements@,
                environment as int,
                fuel as nat,
            ).result,
        decreases fuel, 1nat, statements@, statements@.len() + 1,
    {
        let previous = self.environment;
        self.environment = environment;
        let ghost entered = self@;
        let mut i: usize = 0;
        let mut result: Result<(), LoxResult> = Ok(());
        while i < statements.len() && result.is_ok()
            invariant
                i <= statements.len(),
                self.fuel() == old(self).fuel(),
                match result {
                    Ok(_) => exec_list(self@, statements@, i as int, fuel as nat) == exec_list(
                        entered,
                        statements@,
                        0,
                        fuel as nat,
                    ),
                    Err(e) => exec_list(entered, statements@, 0, fuel as nat) == (Executed {
                        machine: self@,
                        result: Err(e@),
                    }),
                },
            decreases statements.len() - i,
        {
            result = self.execute_with(&statements[i], fuel);
            i += 1;
        }
        self.environment = previous;
        result
    }

    fn execute_while(&mut self, w: &WhileStmt, fuel: usize) -> (r: Result<(), LoxResult>)
        ensures
            final(self).fuel() == old(self).fuel(),
            final(self)@ == exec_while(old(self)@, *w, fuel as nat).machine,
            unit_result(r) == exec_while(old(self)@, *w, fuel as nat).result,
        decreases fuel, 1nat, w, 0nat,
    {
        let mut left: usize = fuel;
        loop
            invariant
                left <= fuel,
                self.fuel() == old(self).fuel(),
                exec_while(self@, *w, left as nat) == exec_while(old(self)@, *w, fuel as nat),
            decreases left,
        {
            match self.evaluate_with(&w.condition, left) {
                Ok(condition) => {
                    if !truthy(&condition) {
                        return Ok(());
                    }
                },
                Err(error) => {
                    return Err(error);
                },
            }
            match self.execute_with(&w.body, left) {
                Ok(_) => {},
                Err(error) => {
                    return Err(error);
                },
            }
            if left == 0 {
                return Err(budget_error(0));
            }
            left -= 1;
        }
    }

    /// Executes a statement with a budget of `fuel`.
    fn execute_with(&mut self, s: &Stmt, fuel: usize) -> (r: Result<(), LoxResult>)
        ensures
            final(self).fuel() == old(self).fuel(),
            final(self)@ == exec(old(self)@, *s, fuel as nat).machine,
            unit_result(r) == exec(old(self)@, *s, fuel as nat).result,
        decreases fuel, 1nat, s, 0nat,
    {
        match s {
            Stmt::Expression(x) => match self.evaluate_with(&x.expression, fuel) {
                Ok(_) => Ok(()),
                Err(error) => Err(error),
            },
            Stmt::Print(p) => match self.evaluate_with(&p.expression, fuel) {
                Ok(v) => {
                    let line = self.display(&v);
                    let ghost before = self@;
                    self.output.push(line);
                    assert(self@.output =~= before.output.push(line@));
                    Ok(())
                },
                Err(error) => Err(error),
            },
            Stmt::Var(v) => {
                let value = match &v.initializer {
                    Some(initializer) => match self.evaluate_with(initializer, fuel) {
                        Ok(value) => value,
                        Err(error) => {
                            return Err(error);
                        },
                    },
                    None => Literal::Nil,
                };
                self.environments.define(self.environment, v.name.lexeme.as_str(), value);
                Ok(())
            },
            Stmt::Block(b) => {
                let scope = self.environments.wrap(self.environment);
                self.execute_block_in(&b.statements, scope, fuel)
            },
            Stmt::If(i) => match self.evaluate_with(&i.condition, fuel) {
                Ok(condition) => {
                    if truthy(&condition) {
                        self.execute_with(&i.then_branch, fuel)
                    } else {
                        match &i.else_branch {
                            Some(otherwise) => self.execute_with(otherwise, fuel),
                            None => Ok(()),
                        }
                    }
                },
                Err(error) => Err(error),
            },
            Stmt::While(w) => self.execute_while(w, fuel),
            Stmt::Return(r) => match &r.value {
                Some(value) => match self.evaluate_with(value, fuel) {
                    Ok(v) => Err(LoxResult::Return(v)),
                    Err(error) => Err(error),
                },
                None => Err(LoxResult::Return(Literal::Nil)),
            },
            Stmt::Function(f) => {
                self.declare_function(f);
                Ok(())
            },
            Stmt::Class(c) => self.execute_class(c),
        }
    }

    /// Evaluates an expression with the interpreter's budget.
    pub fn evaluate(&mut self, expr: &Expr) -> (r: Result<Literal, LoxResult>)
        ensures
            final(self).fuel() == old(self).fuel(),
            final(self)@ == eval(old(self)@, *expr, old(self).fuel()).machine,
            value_result(r) == eval(old(self)@, *expr, old(self).fuel()).result,
    {
        self.evaluate_with(expr, self.budget)
    }

    /// Executes a statement with the interpreter's budget.
    pub fn execute(&mut self, s: &Stmt) -> (r: Result<(), LoxResult>)
        ensures
            final(self).fuel() == old(self).fuel(),
            final(self)@ == exec(old(self)@, *s, old(self).fuel()).machine,
            unit_result(r) == exec(old(self)@, *s, old(self).fuel()).result,
    {
        self.execute_with(s, self.budget)
    }

    /// Runs a program: executes its statements in order, in the current
    /// scope, up to the first that does not end normally.
    pub fn interpret(&mut self, statements: &[Stmt]) -> (r: Result<(), LoxResult>)
        ensures
            final(self).fuel() == old(self).fuel(),
            final(self)@ == run(old(self)@, statements@, old(self).fuel()).machine,
            unit_result(r) == run(old(self)@, statements@, old(self).fuel()).result,
    {
        let fuel = self.budget;
        let mut i: usize = 0;
        while i < statements.len()
            invariant
                i <= statements.len(),
                self.fuel() == old(self).fuel(),
                fuel == self.budget,
                exec_list(self@, statements@, i as int, fuel as nat) == exec_list(
                    old(self)@,
                    statements@,
                    0,
                    fuel as nat,
                ),
            decreases statements.len() - i,
        {
            match self.execute_with(&statements[i], fuel) {
                Ok(_) => {},
                Err(error) => {
                    return Err(error);
                },
            }
            i += 1;
        }
        Ok(())
    }

    /// Executes `statements` in the scope at `environment` with the
    /// interpreter's budget, then goes back to the scope that was current,
    /// however the statements ended.
    pub fn execute_block(&mut self, statements: &[Stmt], environment: usize) -> (r: Result<
        (),
        LoxResult,
    >)
        ensures
            final(self).fuel() == old(self).fuel(),
            final(self)@ == exec_block(
                old(self)@,
                statements@,
                environment as int,
                old(self).fuel(),
            ).machine,
            unit_result(r) == exec_block(
                old(self)@,
                statements@,
                environment as int,
                old(self).fuel(),
            ).result,
            final(self)@.current == old(self)@.current,
    {
        let previous = self.environment;
        self.environment = environment;
        let result = self.interpret(statements);
        self.environment = previous;
        result
    }

    /// Lox's definition of truthy: only `false` and `nil` are falsey.
    pub fn is_truthy(&self, e: &Literal) -> (b: bool)
        ensures
            b == is_truthy(e@),
    {
        truthy(e)
    }

    /// Whether two values are equal.
    pub fn is_equal(&self, a: Literal, b: Literal) -> (r: bool)
        ensures
            r == is_equal(a@, b@),
    {
        equal(&a, &b)
    }

    /// The two operands as numbers, where both are numbers.
    pub fn check_num(&self, left: &Literal, right: &Literal, op: &Token) -> (r: Result<
        (Number, Number),
        LoxResult,
    >)
        ensures
            match r {
                Ok((x, y)) => left@ == Value::Number(x.units as int) && right@ == Value::Number(
                    y.units as int,
                ),
                Err(e) => !(left@ is Number && right@ is Number) && e@ == runtime(
                    op.line as int,
                    "Operands must be numbers."@,
                ),
            },
    {
        check_num(left, right, op)
    }
}

/// The id of a variable-shaped expression; none for any other.
pub open spec fn expression_id(e: Expr) -> Option<usize> {
    match e {
        Expr::Variable(v) => Some(v.id),
        Expr::Assign(a) => Some(a.id),
        Expr::This(t) => Some(t.id),
        Expr::Super(s) => Some(s.id),
        _ => None,
    }
}

/// The id of a variable-shaped expression; none for any other.
pub fn id_of(e: &Expr) -> (id: Option<usize>)
    ensures
        id == expression_id(*e),
{
    match e {
        Expr::Variable(v) => Some(v.id),
        Expr::Assign(a) => Some(a.id),
        Expr::This(t) => Some(t.id),
        Expr::Super(s) => Some(s.id),
        _ => None,
    }
}

} // verus!
