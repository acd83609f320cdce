//! What the operators do to values: truthiness, equality, arithmetic,
//! comparison, concatenation, and how a number is written.

use crate::expr::{Literal, Value};
use crate::lox_result::{LoxResult, Outcome};
use crate::number::{abs, in_range, magnitude, product_of, quotient_of, Number, SCALE};
use crate::text::{chars_of, decimal, decimal_padded, digit_of, push_chars, push_decimal, text_of};
use crate::token::{Kind, Token};
use vstd::prelude::*;

verus! {

/// Whether `v` counts as true: everything but `false` and `nil` does.
pub open spec fn is_truthy(v: Value) -> bool {
    match v {
        Value::Nil => false,
        Value::Boolean(b) => b,
        _ => true,
    }
}

/// Whether two values are equal: `nil` equals only `nil`; booleans, numbers
/// and text are equal when they hold the same; a function, a class and an
/// instance are equal to themselves only.
pub open spec fn is_equal(a: Value, b: Value) -> bool {
    a == b
}

/// `s` without its trailing zeros.
pub open spec fn trim_zeros(s: Seq<char>) -> Seq<char>
    decreases s.len(),
{
    if s.len() > 0 && s.last() == '0' {
        trim_zeros(s.drop_last())
    } else {
        s
    }
}

/// How a number of `units` millionths is written: a whole number without a
/// fraction, any other with its fraction digits up to the last nonzero one.
pub open spec fn number_text(units: int) -> Seq<char> {
    let whole = abs(units) / (SCALE as int);
    let fraction = abs(units) % (SCALE as int);
    (if units < 0 {
        seq!['-']
    } else {
        Seq::empty()
    }) + decimal(whole as nat) + (if fraction == 0 {
        Seq::empty()
    } else {
        seq!['.'] + trim_zeros(decimal_padded(fraction as nat, 6))
    })
}

/// A runtime error at `line`.
pub open spec fn runtime(line: int, message: Seq<char>) -> Outcome {
    Outcome::RuntimeError { line, message }
}

/// The number of `units` millionths, or a runtime error where that is out
/// of range.
pub open spec fn ranged(units: int, line: int) -> Result<Value, Outcome> {
    if in_range(units) {
        Ok(Value::Number(units))
    } else {
        Err(runtime(line, "Number out of range."@))
    }
}

/// What an operator that takes two numbers gives for `x` and `y`.
pub open spec fn numeric(kind: Kind, line: int, x: int, y: int) -> Result<Value, Outcome> {
    match kind {
        Kind::Minus => ranged(x - y, line),
        Kind::Star => ranged(product_of(x, y), line),
        Kind::Slash => if y == 0 {
            Err(runtime(line, "Division by zero"@))
        } else {
            ranged(quotient_of(x, y), line)
        },
        Kind::Greater => Ok(Value::Boolean(x > y)),
        Kind::GreaterEqual => Ok(Value::Boolean(x >= y)),
        Kind::Less => Ok(Value::Boolean(x < y)),
        _ => Ok(Value::Boolean(x <= y)),
    }
}

/// Whether `kind` is an operator that takes two numbers.
pub open spec fn takes_numbers(kind: Kind) -> bool {
    kind == Kind::Minus || kind == Kind::Star || kind == Kind::Slash || kind == Kind::Greater
        || kind == Kind::GreaterEqual || kind == Kind::Less || kind == Kind::LessEqual
}

/// What `+` gives: the sum of two numbers, or the two operands written one
/// after the other where both are text or one is text and one a number.
pub open spec fn plus(line: int, a: Value, b: Value) -> Result<Value, Outcome> {
    match (a, b) {
        (Value::Text(s), Value::Text(t)) => Ok(Value::Text(s + t)),
        (Value::Text(s), Value::Number(n)) => Ok(Value::Text(s + number_text(n))),
        (Value::Number(n), Value::Text(s)) => Ok(Value::Text(number_text(n) + s)),
        (Value::Number(x), Value::Number(y)) => ranged(x + y, line),
        _ => Err(runtime(line, "Operands must be two numbers or two strings."@)),
    }
}

/// What the binary operator `kind`, read on `line`, gives for `a` and `b`.
pub open spec fn binary(kind: Kind, line: int, a: Value, b: Value) -> Result<Value, Outcome> {
    if kind == Kind::EqualEqual {
        Ok(Value::Boolean(is_equal(a, b)))
    } else if kind == Kind::BangEqual {
        Ok(Value::Boolean(!is_equal(a, b)))
    } else if kind == Kind::Plus {
        plus(line, a, b)
    } else if takes_numbers(kind) {
        match (a, b) {
            (Value::Number(x), Value::Number(y)) => numeric(kind, line, x, y),
            _ => Err(runtime(line, "Operands must be numbers."@)),
        }
    } else {
        Err(runtime(line, "Invalid operator."@))
    }
}

/// What the unary operator `kind`, read on `line`, gives for `v`.
pub open spec fn unary(kind: Kind, line: int, v: Value) -> Result<Value, Outcome> {
    if kind == Kind::Bang {
        Ok(Value::Boolean(!is_truthy(v)))
    } else if kind == Kind::Minus {
        match v {
            Value::Number(x) => ranged(-x, line),
            _ => Err(runtime(line, "Operand must be a number."@)),
        }
    } else {
        Err(runtime(line, "Invalid operator."@))
    }
}

/// A result, as plain values.
pub open spec fn value_result(r: Result<Literal, LoxResult>) -> Result<Value, Outcome> {
    match r {
        Ok(v) => Ok(v@),
        Err(e) => Err(e@),
    }
}

/// Negating twice gives the truthiness of a value as a boolean.
pub proof fn lemma_double_negation(line: int, v: Value)
    ensures
        unary(Kind::Bang, line, unary(Kind::Bang, line, v)->Ok_0) == Ok::<Value, Outcome>(
            Value::Boolean(is_truthy(v)),
        ),
{
}

/// Equality is symmetric, and every value equals itself.
pub proof fn lemma_equality(a: Value, b: Value)
    ensures
        is_equal(a, b) == is_equal(b, a),
        is_equal(a, a),
        binary(Kind::EqualEqual, 0, a, b) == binary(Kind::EqualEqual, 0, b, a),
        binary(Kind::EqualEqual, 0, a, a) == Ok::<Value, Outcome>(Value::Boolean(true)),
{
}

/// Adding anything to `nil`, on either side, is a runtime error.
pub proof fn lemma_nil_plus(line: int, v: Value)
    ensures
        plus(line, Value::Nil, v) is Err,
        plus(line, v, Value::Nil) is Err,
        binary(Kind::Plus, line, Value::Nil, v) matches Err(Outcome::RuntimeError { .. }),
        binary(Kind::Plus, line, v, Value::Nil) matches Err(Outcome::RuntimeError { .. }),
{
}

/// Dividing by zero is a runtime error, and whatever a division gives is a
/// number in range.
pub proof fn lemma_division(line: int, a: Value, b: Value)
    ensures
        b == Value::Number(0) ==> binary(Kind::Slash, line, a, b) matches Err(
            Outcome::RuntimeError { .. },
        ),
        binary(Kind::Slash, line, a, b) matches Ok(v) ==> v matches Value::Number(q) && in_range(
            q,
        ),
{
}

/// Whether `v` counts as true.
pub fn truthy(v: &Literal) -> (b: bool)
    ensures
        b == is_truthy(v@),
{
    match v {
        Literal::Nil => false,
        Literal::Boolean(b) => *b,
        _ => true,
    }
}

/// Whether two values are equal.
pub fn equal(a: &Literal, b: &Literal) -> (r: bool)
    ensures
        r == is_equal(a@, b@),
{
    match (a, b) {
        (Literal::Nil, Literal::Nil) => true,
        (Literal::Boolean(x), Literal::Boolean(y)) => *x == *y,
        (Literal::Number(x), Literal::Number(y)) => x.units == y.units,
        (Literal::String(x), Literal::String(y)) => *x == *y,
        (Literal::Function(x), Literal::Function(y)) => *x == *y,
        (Literal::NativeFunction(x), Literal::NativeFunction(y)) => *x == *y,
        (Literal::Class(x), Literal::Class(y)) => *x == *y,
        (Literal::Instance(x), Literal::Instance(y)) => *x == *y,
        _ => false,
    }
}

fn push_padded(out: &mut Vec<char>, n: u128, width: usize)
    ensures
        final(out)@ == old(out)@ + decimal_padded(n as nat, width as nat),
    decreases width,
{
    if width == 0 {
        assert(out@ =~= old(out)@ + decimal_padded(n as nat, 0));
    } else {
        push_padded(out, n / 10, width - 1);
        out.push(digit_of((n % 10) as u8));
        assert(out@ =~= old(out)@ + decimal_padded(n as nat, width as nat));
    }
}

/// The characters by which `n` is written.
pub fn write_number(n: Number) -> (out: Vec<char>)
    ensures
        out@ == number_text(n.units as int),
{
    let m: u128 = magnitude(n.units);
    let whole: u128 = m / 1_000_000;
    let fraction: u128 = m % 1_000_000;
    let mut out: Vec<char> = Vec::new();
    if n.units < 0 {
        out.push('-');
    }
    let ghost sign = out@;
    push_decimal(&mut out, whole);
    if fraction != 0 {
        let mut digits: Vec<char> = Vec::new();
        push_padded(&mut digits, fraction, 6);
        let ghost all = digits@;
        assert(all =~= decimal_padded(fraction as nat, 6));
        while digits.len() > 0 && digits[digits.len() - 1] == '0'
            invariant
                trim_zeros(digits@) == trim_zeros(all),
            decreases digits.len(),
        {
            let ghost before = digits@;
            digits.pop();
            assert(digits@ =~= before.drop_last());
        }
        out.push('.');
        push_chars(&mut out, &digits);
        assert(out@ =~= sign + decimal(whole as nat) + (seq!['.'] + trim_zeros(all)));
    } else {
        assert(out@ =~= sign + decimal(whole as nat) + Seq::<char>::empty());
    }
    out
}

fn range_error(line: usize) -> (r: Result<Literal, LoxResult>)
    ensures
        value_result(r) == Err::<Value, Outcome>(runtime(line as int, "Number out of range."@)),
{
    Err(LoxResult::RuntimeError { line, message: String::from_str("Number out of range.") })
}

fn number_or_error(n: Option<Number>, line: usize, units: Ghost<int>) -> (r: Result<
    Literal,
    LoxResult,
>)
    requires
        match n {
            Some(v) => v.units == units@,
            None => !in_range(units@),
        },
    ensures
        value_result(r) == ranged(units@, line as int),
{
    match n {
        Some(v) => Ok(Literal::Number(v)),
        None => range_error(line),
    }
}

fn concat(a: Vec<char>, b: &Vec<char>) -> (r: Result<Literal, LoxResult>)
    ensures
        value_result(r) == Ok::<Value, Outcome>(Value::Text(a@ + b@)),
{
    let mut out = a;
    push_chars(&mut out, b);
    Ok(Literal::String(text_of(&out)))
}

/// Applies the binary operator that `operator` spells to two values.
pub fn apply_binary(operator: &Token, left: &Literal, right: &Literal) -> (r: Result<
    Literal,
    LoxResult,
>)
    ensures
        value_result(r) == binary(operator.spec_kind(), operator.line as int, left@, right@),
{
    let kind = operator.kind();
    let line = operator.line;
    if kind == Kind::EqualEqual {
        Ok(Literal::Boolean(equal(left, right)))
    } else if kind == Kind::BangEqual {
        Ok(Literal::Boolean(!equal(left, right)))
    } else if kind == Kind::Plus {
        match (left, right) {
            (Literal::String(s), Literal::String(t)) => concat(
                chars_of(s.as_str()),
                &chars_of(t.as_str()),
            ),
            (Literal::String(s), Literal::Number(n)) => concat(
                chars_of(s.as_str()),
                &write_number(*n),
            ),
            (Literal::Number(n), Literal::String(s)) => concat(
                write_number(*n),
                &chars_of(s.as_str()),
            ),
            (Literal::Number(x), Literal::Number(y)) => number_or_error(
                x.checked_add(*y),
                line,
                Ghost(x.units + y.units),
            ),
            _ => Err(
                LoxResult::runtime_error(operator, "Operands must be two numbers or two strings."),
            ),
        }
    } else if kind == Kind::Minus || kind == Kind::Star || kind == Kind::Slash || kind
        == Kind::Greater || kind == Kind::GreaterEqual || kind == Kind::Less || kind
        == Kind::LessEqual {
        match check_num(left, right, operator) {
            Ok((x, y)) => {
                if kind == Kind::Minus {
                    number_or_error(x.checked_sub(y), line, Ghost(x.units - y.units))
                } else if kind == Kind::Star {
                    number_or_error(
                        x.checked_mul(y),
                        line,
                        Ghost(product_of(x.units as int, y.units as int)),
                    )
                } else if kind == Kind::Slash {
                    if y.is_zero() {
                        Err(LoxResult::runtime_error(operator, "Division by zero"))
                    } else {
                        number_or_error(
                            x.checked_div(y),
                            line,
                            Ghost(quotient_of(x.units as int, y.units as int)),
                        )
                    }
                } else if kind == Kind::Greater {
                    Ok(Literal::Boolean(x.gt(y)))
                } else if kind == Kind::GreaterEqual {
                    Ok(Literal::Boolean(x.ge(y)))
                } else if kind == Kind::Less {
                    Ok(Literal::Boolean(x.lt(y)))
                } else {
                    Ok(Literal::Boolean(x.le(y)))
                }
            },
            Err(e) => Err(e),
        }
    } else {
        Err(LoxResult::runtime_error(operator, "Invalid operator."))
    }
}

/// The two operands as numbers, where both are numbers.
pub fn check_num(left: &Literal, right: &Literal, operator: &Token) -> (r: Result<
    (Number, Number),
    LoxResult,
>)
    ensures
        match r {
            Ok((x, y)) => left@ == Value::Number(x.units as int) && right@ == Value::Number(
                y.units as int,
            ),
            Err(e) => !(left@ is Number && right@ is Number) && e@ == runtime(
                operator.line as int,
                "Operands must be numbers."@,
            ),
        },
{
    match (left, right) {
        (Literal::Number(x), Literal::Number(y)) => Ok((*x, *y)),
        _ => Err(LoxResult::runtime_error(operator, "Operands must be numbers.")),
    }
}

/// Applies the unary operator that `operator` spells to a value.
pub fn apply_unary(operator: &Token, right: &Literal) -> (r: Result<Literal, LoxResult>)
    ensures
        value_result(r) == unary(operator.spec_kind(), operator.line as int, right@),
{
    let kind = operator.kind();
    if kind == Kind::Bang {
        Ok(Literal::Boolean(!truthy(right)))
    } else if kind == Kind::Minus {
        match right {
            Literal::Number(x) => number_or_error(
                x.checked_neg(),
                operator.line,
                Ghost(-(x.units as int)),
            ),
            _ => Err(LoxResult::runtime_error(operator, "Operand must be a number.")),
        }
    } else {
        Err(LoxResult::runtime_error(operator, "Invalid operator."))
    }
}

} // verus!
