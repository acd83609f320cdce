//! What a stage of the pipeline reports in place of a result: the causes of
//! a lexical or syntax error, a static error, a runtime error, or the signal
//! by which `return` unwinds to the nearest call.

use crate::expr::{Literal, Value};
use crate::text::{push_decimal, push_str, text_of, decimal};
use crate::token::Token;
use vstd::prelude::*;

verus! {

/// One cause of a lexical or syntax error, as plain values.
pub struct CauseView {
    pub line: int,
    pub lexeme: Option<Seq<char>>,
    pub message: Seq<char>,
}

/// One cause of a lexical or syntax error: where, at which lexeme (the
/// scanner names none), and what was expected.
#[derive(Debug)]
pub struct ParseErrorCause {
    pub line: usize,
    pub lexeme: Option<String>,
    pub message: String,
}

impl View for ParseErrorCause {
    type V = CauseView;

    open spec fn view(&self) -> CauseView {
        CauseView {
            line: self.line as int,
            lexeme: match self.lexeme {
                Some(l) => Some(l@),
                None => None,
            },
            message: self.message@,
        }
    }
}

/// The line prefix of a report: `[line N]`.
pub open spec fn line_tag(line: int) -> Seq<char> {
    "[line "@ + decimal(line as nat) + "]"@
}

/// How a static error is reported: `[line N] Error: message`, with
/// ` at 'lexeme'` after `Error` where a lexeme is named.
pub open spec fn static_report(line: int, lexeme: Option<Seq<char>>, message: Seq<char>) -> Seq<
    char,
> {
    line_tag(line) + " Error"@ + (match lexeme {
        Some(l) => " at '"@ + l + "'"@,
        None => Seq::empty(),
    }) + ": "@ + message
}

/// How a runtime error is reported: the message, then `[line N]` on a line
/// of its own.
pub open spec fn runtime_report(line: int, message: Seq<char>) -> Seq<char> {
    message + "\n"@ + line_tag(line)
}

fn push_line_tag(out: &mut Vec<char>, line: usize)
    ensures
        final(out)@ == old(out)@ + line_tag(line as int),
{
    push_str(out, "[line ");
    push_decimal(out, line as u128);
    push_str(out, "]");
    assert(out@ =~= old(out)@ + line_tag(line as int));
}

impl ParseErrorCause {
    pub fn new(line: usize, lexeme: Option<String>, message: &str) -> (c: ParseErrorCause)
        ensures
            c.line == line,
            c.lexeme == lexeme,
            c.message@ == message@,
    {
        ParseErrorCause { line, lexeme, message: String::from_str(message) }
    }

    /// The report of this cause.
    pub fn report(&self) -> (s: String)
        ensures
            s@ == static_report(self@.line, self@.lexeme, self@.message),
    {
        let mut out: Vec<char> = Vec::new();
        push_line_tag(&mut out, self.line);
        push_str(&mut out, " Error");
        let ghost before = out@;
        match &self.lexeme {
            Some(l) => {
                push_str(&mut out, " at '");
                push_str(&mut out, l.as_str());
                push_str(&mut out, "'");
                assert(out@ =~= before + (" at '"@ + l@ + "'"@));
            },
            None => {
                assert(out@ =~= before + Seq::<char>::empty());
            },
        }
        push_str(&mut out, ": ");
        push_str(&mut out, self.message.as_str());
        assert(out@ =~= static_report(self@.line, self@.lexeme, self@.message));
        text_of(&out)
    }
}

/// What a stage reports in place of a result, as plain values.
pub enum Outcome {
    ParseError { causes: Seq<CauseView> },
    RuntimeError { line: int, message: Seq<char> },
    Error { line: int, message: Seq<char> },
    Return(Value),
}

/// What a stage reports in place of a result.
#[derive(Debug)]
pub enum LoxResult {
    /// The causes of a lexical or syntax error, in source order.
    ParseError { causes: Vec<ParseErrorCause> },
    /// A runtime error, with the line of the token it is located at.
    RuntimeError { line: usize, message: String },
    /// A static error found while resolving.
    Error { line: usize, message: String },
    /// The signal by which `return` unwinds to the nearest call.
    Return(Literal),
}

/// The causes, each as plain values.
pub open spec fn causes_view(causes: Seq<ParseErrorCause>) -> Seq<CauseView> {
    Seq::new(causes.len(), |i: int| causes[i]@)
}

impl View for LoxResult {
    type V = Outcome;

    open spec fn view(&self) -> Outcome {
        match self {
            LoxResult::ParseError { causes } => Outcome::ParseError { causes: causes_view(causes@) },
            LoxResult::RuntimeError { line, message } => Outcome::RuntimeError {
                line: *line as int,
                message: message@,
            },
            LoxResult::Error { line, message } => Outcome::Error {
                line: *line as int,
                message: message@,
            },
            LoxResult::Return(v) => Outcome::Return(v@),
        }
    }
}

impl LoxResult {
    /// A runtime error located at `token`.
    pub fn runtime_error(token: &Token, message: &str) -> (r: LoxResult)
        ensures
            r@ == (Outcome::RuntimeError { line: token.line as int, message: message@ }),
    {
        LoxResult::RuntimeError { line: token.line, message: String::from_str(message) }
    }

    /// A static error at `line`.
    pub fn new_error(line: usize, message: &str) -> (r: LoxResult)
        ensures
            r@ == (Outcome::Error { line: line as int, message: message@ }),
    {
        LoxResult::Error { line, message: String::from_str(message) }
    }
}

/// The lines by which an outcome is reported: one per cause of a lexical or
/// syntax error, one for a static error, one (of two text lines) for a
/// runtime error, none for a return signal.
pub open spec fn report_lines(o: Outcome) -> Seq<Seq<char>> {
    match o {
        Outcome::ParseError { causes } => Seq::new(
            causes.len(),
            |i: int| static_report(causes[i].line, causes[i].lexeme, causes[i].message),
        ),
        Outcome::RuntimeError { line, message } => seq![runtime_report(line, message)],
        Outcome::Error { line, message } => seq![static_report(line, None, message)],
        Outcome::Return(_) => Seq::empty(),
    }
}

/// The reports, each by its characters.
pub open spec fn lines_view(lines: Seq<String>) -> Seq<Seq<char>> {
    Seq::new(lines.len(), |i: int| lines[i]@)
}

impl LoxResult {
    /// The lines by which this outcome is reported.
    pub fn report(&self) -> (lines: Vec<String>)
        ensures
            lines_view(lines@) == report_lines(self@),
    {
        let mut lines: Vec<String> = Vec::new();
        match self {
            LoxResult::ParseError { causes } => {
                let mut i: usize = 0;
                while i < causes.len()
                    invariant
                        i <= causes.len(),
                        lines@.len() == i,
                        forall|j: int|
                            0 <= j < i ==> (#[trigger] lines@[j])@ == static_report(
                                causes@[j]@.line,
                                causes@[j]@.lexeme,
                                causes@[j]@.message,
                            ),
                    decreases causes.len() - i,
                {
                    lines.push(causes[i].report());
                    i += 1;
                }
                assert(lines_view(lines@) =~= report_lines(self@));
            },
            LoxResult::RuntimeError { line, message } => {
                let mut out: Vec<char> = Vec::new();
                push_str(&mut out, message.as_str());
                push_str(&mut out, "\n");
                push_line_tag(&mut out, *line);
                assert(out@ =~= runtime_report(*line as int, message@));
                lines.push(text_of(&out));
                assert(lines_view(lines@) =~= report_lines(self@));
            },
            LoxResult::Error { line, message } => {
                let mut out: Vec<char> = Vec::new();
                push_line_tag(&mut out, *line);
                push_str(&mut out, " Error");
                push_str(&mut out, ": ");
                push_str(&mut out, message.as_str());
                assert(out@ =~= static_report(*line as int, None, message@));
                lines.push(text_of(&out));
                assert(lines_view(lines@) =~= report_lines(self@));
            },
            LoxResult::Return(_) => {
                assert(lines_view(lines@) =~= report_lines(self@));
            },
        }
        lines
    }
}

} // verus!
