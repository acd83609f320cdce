//! User-defined functions: a declaration closed over the scope it was
//! declared in.

use crate::stmt::FunctionStmt;
use std::rc::Rc;
use vstd::prelude::*;

verus! {

/// A function value, as plain values.
pub struct FunctionView {
    pub declaration: FunctionStmt,
    pub closure: int,
    pub is_initializer: bool,
}

/// A function value: its declaration, the index of the scope it closes
/// over, and whether it is a class's `init`.
#[derive(Debug)]
pub struct LoxFunction {
    pub declaration: Rc<FunctionStmt>,
    pub closure: usize,
    pub is_initializer: bool,
}

impl View for LoxFunction {
    type V = FunctionView;

    open spec fn view(&self) -> FunctionView {
        FunctionView {
            declaration: *self.declaration,
            closure: self.closure as int,
            is_initializer: self.is_initializer,
        }
    }
}

/// The functions, each as plain values.
pub open spec fn functions_view(functions: Seq<LoxFunction>) -> Seq<FunctionView> {
    Seq::new(functions.len(), |i: int| functions[i]@)
}

/// Another handle on a shared declaration, by `Rc::clone` of the standard
/// library. The contract claims that the new handle refers to the same
/// declaration.
#[verifier::external_body]
pub(crate) fn share(declaration: &Rc<FunctionStmt>) -> (shared: Rc<FunctionStmt>)
    ensures
        shared == *declaration,
{
    Rc::clone(declaration)
}

impl LoxFunction {
    pub fn new(declaration: Rc<FunctionStmt>, closure: usize, is_initializer: bool) -> (f:
        LoxFunction)
        ensures
            f@ == (FunctionView {
                declaration: *declaration,
                closure: closure as int,
                is_initializer,
            }),
    {
        LoxFunction { declaration, closure, is_initializer }
    }

    /// How many arguments the function takes: as many as it has parameters.
    pub fn get_arity(&self) -> (n: usize)
        ensures
            n == self@.declaration.params@.len(),
    {
        self.declaration.params.len()
    }
}

} // verus!
