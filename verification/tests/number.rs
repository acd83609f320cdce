use lox::number::{magnitude, Number, SCALE};
use lox::operators::{apply_binary, apply_unary, check_num, equal, truthy, write_number};
use lox::expr::Literal;
use lox::lox_result::LoxResult;
use lox::text::{chars_of, push_chars, push_decimal, push_str, same_text, value_of_digit, digit_of};
use lox::token::{Token, TokenType};

fn number(value: f64) -> Number {
    Number::from_units((value * 1_000_000.0).round() as i64)
}

fn written(units: i64) -> String {
    write_number(Number::from_units(units)).into_iter().collect()
}

fn token(token_type: TokenType, lexeme: &str) -> Token {
    Token::new(token_type, lexeme.to_owned(), 3)
}

#[test]
fn whole_numbers_scale_by_a_million() {
    assert_eq!(SCALE, 1_000_000);
    assert_eq!(Number::from_whole(7).unwrap().units, 7_000_000);
    assert_eq!(Number::from_whole(-7).unwrap().units, -7_000_000);
    assert_eq!(Number::from_whole(9_223_372_036_854).unwrap().units, 9_223_372_036_854_000_000);
    assert!(Number::from_whole(9_223_372_036_855).is_none());
    assert!(Number::zero().is_zero());
    assert!(!number(0.000001).is_zero());
}

#[test]
fn addition_and_subtraction_are_exact_and_checked() {
    assert_eq!(number(1.5).checked_add(number(2.25)), Some(number(3.75)));
    assert_eq!(number(1.5).checked_sub(number(2.25)), Some(number(-0.75)));
    assert_eq!(Number::from_units(i64::MAX).checked_add(Number::from_units(1)), None);
    assert_eq!(Number::from_units(i64::MIN).checked_sub(Number::from_units(1)), None);
    assert_eq!(Number::from_units(i64::MIN).checked_neg(), None);
    assert_eq!(number(2.0).checked_neg(), Some(number(-2.0)));
}

#[test]
fn multiplication_truncates_toward_zero() {
    assert_eq!(number(2.0).checked_mul(number(8.0)), Some(number(16.0)));
    assert_eq!(number(-1.5).checked_mul(number(1.5)), Some(number(-2.25)));
    assert_eq!(Number::from_units(1).checked_mul(Number::from_units(999_999)), Some(Number::from_units(0)));
    assert_eq!(Number::from_units(-1).checked_mul(Number::from_units(999_999)), Some(Number::from_units(0)));
    assert_eq!(Number::from_units(3).checked_mul(Number::from_units(500_000)), Some(Number::from_units(1)));
    assert_eq!(Number::from_units(-3).checked_mul(Number::from_units(500_000)), Some(Number::from_units(-1)));
    assert_eq!(Number::from_units(i64::MAX).checked_mul(number(2.0)), None);
    assert_eq!(Number::from_units(i64::MIN).checked_mul(number(1.0)), Some(Number::from_units(i64::MIN)));
    assert_eq!(Number::from_units(i64::MIN).checked_mul(number(-1.0)), None);
}

#[test]
fn division_truncates_toward_zero() {
    assert_eq!(number(1.0).checked_div(number(3.0)), Some(Number::from_units(333_333)));
    assert_eq!(number(-1.0).checked_div(number(3.0)), Some(Number::from_units(-333_333)));
    assert_eq!(number(1.0).checked_div(number(-3.0)), Some(Number::from_units(-333_333)));
    assert_eq!(number(-1.0).checked_div(number(-3.0)), Some(Number::from_units(333_333)));
    assert_eq!(number(0.0).checked_div(number(-3.0)), Some(Number::from_units(0)));
    assert_eq!(Number::from_units(i64::MAX).checked_div(Number::from_units(1)), None);
    assert_eq!(Number::from_units(i64::MIN).checked_div(number(1.0)), Some(Number::from_units(i64::MIN)));
}

#[test]
fn comparisons_go_by_units() {
    assert!(number(1.0).lt(number(1.000001)));
    assert!(number(1.0).le(number(1.0)));
    assert!(number(1.1).gt(number(1.0)));
    assert!(number(-1.0).ge(number(-1.0)));
    assert!(!number(1.0).lt(number(1.0)));
    assert_eq!(magnitude(i64::MIN), 9_223_372_036_854_775_808u128);
    assert_eq!(magnitude(-5), 5);
    assert_eq!(magnitude(5), 5);
}

#[test]
fn numbers_are_written_without_trailing_zeros() {
    assert_eq!(written(0), "0");
    assert_eq!(written(7_000_000), "7");
    assert_eq!(written(-7_000_000), "-7");
    assert_eq!(written(100_100_000), "100.1");
    assert_eq!(written(100_010_000), "100.01");
    assert_eq!(written(1), "0.000001");
    assert_eq!(written(-1), "-0.000001");
    assert_eq!(written(1_234_560), "1.23456");
    assert_eq!(written(-500_000), "-0.5");
    assert_eq!(written(i64::MAX), "9223372036854.775807");
    assert_eq!(written(i64::MIN), "-9223372036854.775808");
}

#[test]
fn operators_on_values() {
    let plus = token(TokenType::Plus, "+");
    let slash = token(TokenType::Slash, "/");
    let bang = token(TokenType::Bang, "!");
    let minus = token(TokenType::Minus, "-");
    let and = token(TokenType::And, "and");
    let x = Literal::String("x".to_owned());
    let one = Literal::Number(number(1.0));
    assert_eq!(apply_binary(&plus, &x, &one).unwrap(), Literal::String("x1".to_owned()));
    assert_eq!(apply_binary(&plus, &one, &x).unwrap(), Literal::String("1x".to_owned()));
    assert_eq!(apply_binary(&plus, &one, &one).unwrap(), Literal::Number(number(2.0)));
    assert_eq!(apply_binary(&minus, &one, &one).unwrap(), Literal::Number(number(0.0)));
    match apply_binary(&plus, &Literal::Nil, &one) {
        Err(LoxResult::RuntimeError { line, message }) => {
            assert_eq!(line, 3);
            assert_eq!(message, "Operands must be two numbers or two strings.");
        }
        other => panic!("{:?}", other),
    }
    match apply_binary(&slash, &one, &Literal::Number(Number::zero())) {
        Err(LoxResult::RuntimeError { line, message }) => {
            assert_eq!(line, 3);
            assert_eq!(message, "Division by zero");
        }
        other => panic!("{:?}", other),
    }
    match apply_binary(&and, &one, &one) {
        Err(LoxResult::RuntimeError { message, .. }) => assert_eq!(message, "Invalid operator."),
        other => panic!("{:?}", other),
    }
    match apply_unary(&plus, &one) {
        Err(LoxResult::RuntimeError { message, .. }) => assert_eq!(message, "Invalid operator."),
        other => panic!("{:?}", other),
    }
    assert_eq!(apply_unary(&bang, &Literal::Nil).unwrap(), Literal::Boolean(true));
    assert_eq!(
        apply_unary(&bang, &apply_unary(&bang, &x).unwrap()).unwrap(),
        Literal::Boolean(truthy(&x))
    );
    assert_eq!(apply_unary(&minus, &one).unwrap(), Literal::Number(number(-1.0)));
    assert!(check_num(&one, &one, &plus).is_ok());
    assert!(check_num(&one, &x, &plus).is_err());
    assert!(equal(&x, &Literal::String("x".to_owned())));
    assert!(!equal(&x, &one));
    assert!(equal(&Literal::Function(2), &Literal::Function(2)));
    assert!(!equal(&Literal::Function(2), &Literal::Class(2)));
    assert!(!equal(&Literal::Instance(1), &Literal::Instance(2)));
}

#[test]
fn text_helpers() {
    assert_eq!(chars_of("héllo"), vec!['h', 'é', 'l', 'l', 'o']);
    let mut out = vec!['a'];
    push_str(&mut out, "bc");
    push_chars(&mut out, &vec!['d']);
    push_decimal(&mut out, 0);
    push_decimal(&mut out, 1234567890123456789012345678901234567u128);
    assert_eq!(out.iter().collect::<String>(), "abcd01234567890123456789012345678901234567");
    assert!(same_text(&vec!['a', 'b'], &vec!['a', 'b']));
    assert!(!same_text(&vec!['a', 'b'], &vec!['a', 'c']));
    assert!(!same_text(&vec!['a'], &vec!['a', 'b']));
    for d in 0..10u8 {
        assert_eq!(value_of_digit(digit_of(d)), d);
        assert_eq!(digit_of(d), (b'0' + d) as char);
    }
}
