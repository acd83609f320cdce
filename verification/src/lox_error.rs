//! A plain error: a line and a message.

use crate::text::{decimal, push_decimal, push_str, text_of};
use vstd::prelude::*;

verus! {

/// An error at a line of the source.
#[derive(Debug)]
pub struct LoxError {
    line: u32,
    message: String,
}

/// How an error is written: `Line N: message`.
pub open spec fn error_text(line: nat, message: Seq<char>) -> Seq<char> {
    "Line "@ + decimal(line) + ": "@ + message
}

impl LoxError {
    /// The line of the error.
    pub closed spec fn line(&self) -> nat {
        self.line as nat
    }

    /// The message of the error.
    pub closed spec fn message(&self) -> Seq<char> {
        self.message@
    }

    pub fn new(line: u32, message: String) -> (e: LoxError)
        ensures
            e.line() == line,
            e.message() == message@,
    {
        LoxError { line, message }
    }

    /// The error as text: `Line N: message`.
    pub fn to_string(&self) -> (s: String)
        ensures
            s@ == error_text(self.line(), self.message()),
    {
        let mut out: Vec<char> = Vec::new();
        push_str(&mut out, "Line ");
        push_decimal(&mut out, self.line as u128);
        push_str(&mut out, ": ");
        push_str(&mut out, self.message.as_str());
        assert(out@ =~= error_text(self.line(), self.message()));
        text_of(&out)
    }
}

} // verus!
