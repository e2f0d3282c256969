use lox::ast::{Binary, Expr, Grouping, Literal, Unary};
use lox::interpreter::{
    addition_operands_error, apply_binary, apply_plain_binary, apply_unary, evaluate, is_equal,
    is_truthy, number_operand_error, number_operands_error, request_of, strip_zero_fraction,
    Arithmetic, RuntimeError,
};
use lox::interpreter;
use lox::token::{Object, Token, TokenType};

fn arith(op: Arithmetic, a: u64, b: u64) -> u64 {
    let (x, y) = (f64::from_bits(a), f64::from_bits(b));
    let z = match op {
        Arithmetic::Subtract => x - y,
        Arithmetic::Divide => x / y,
        Arithmetic::Multiply => x * y,
        Arithmetic::Add => x + y,
    };
    z.to_bits()
}

fn decimal(bits: u64) -> String {
    f64::from_bits(bits).to_string()
}

fn op(token_type: TokenType, lexeme: &str) -> Token {
    Token { token_type, lexeme: lexeme.to_string(), literal: None, line: 3 }
}

fn num(x: f64) -> Expr {
    Expr::Literal(Literal { value: Object::Number(x.to_bits()) })
}

fn text(s: &str) -> Expr {
    Expr::Literal(Literal { value: Object::Str(s.to_string()) })
}

fn boolean(b: bool) -> Expr {
    Expr::Literal(Literal { value: Object::Bool(b) })
}

fn nil() -> Expr {
    Expr::Literal(Literal { value: Object::Nil })
}

fn binary(left: Expr, token_type: TokenType, lexeme: &str, right: Expr) -> Expr {
    Expr::Binary(Binary {
        left: Box::new(left),
        operator: op(token_type, lexeme),
        right: Box::new(right),
    })
}

fn unary(token_type: TokenType, lexeme: &str, right: Expr) -> Expr {
    Expr::Unary(Unary { operator: op(token_type, lexeme), right: Box::new(right) })
}

fn group(inner: Expr) -> Expr {
    Expr::Grouping(Grouping { expression: Box::new(inner) })
}

fn number_of(out: Result<Object, RuntimeError>) -> f64 {
    match out {
        Ok(Object::Number(bits)) => f64::from_bits(bits),
        other => panic!("not a number: {other:?}"),
    }
}

fn bool_of(out: Result<Object, RuntimeError>) -> bool {
    match out {
        Ok(Object::Bool(b)) => b,
        other => panic!("not a boolean: {other:?}"),
    }
}

fn string_of(out: Result<Object, RuntimeError>) -> String {
    match out {
        Ok(Object::Str(s)) => s,
        other => panic!("not a string: {other:?}"),
    }
}

fn failure_of(out: Result<Object, RuntimeError>) -> RuntimeError {
    match out {
        Err(e) => e,
        other => panic!("no failure: {other:?}"),
    }
}

#[test]
fn literal_evaluates_to_its_value() {
    assert_eq!(number_of(evaluate(num(1.5), &arith)), 1.5);
    assert_eq!(string_of(evaluate(text("hi"), &arith)), "hi");
    assert!(bool_of(evaluate(boolean(true), &arith)));
    assert!(matches!(evaluate(nil(), &arith), Ok(Object::Nil)));
}

#[test]
fn subtraction_tree_evaluates_left_first() {
    // (1 - 2) - 3
    let e = binary(
        binary(num(1.0), TokenType::Minus, "-", num(2.0)),
        TokenType::Minus,
        "-",
        num(3.0),
    );
    assert_eq!(number_of(evaluate(e, &arith)), -4.0);
    // 1 - (2 - 3)
    let e = binary(
        num(1.0),
        TokenType::Minus,
        "-",
        binary(num(2.0), TokenType::Minus, "-", num(3.0)),
    );
    assert_eq!(number_of(evaluate(e, &arith)), 2.0);
}

#[test]
fn arithmetic_is_the_callers() {
    let e = binary(num(6.0), TokenType::Slash, "/", num(2.0));
    assert_eq!(number_of(evaluate(e, &arith)), 3.0);
    let e = binary(num(6.0), TokenType::Star, "*", num(2.0));
    assert_eq!(number_of(evaluate(e, &arith)), 12.0);
    let e = binary(num(6.0), TokenType::Plus, "+", num(2.0));
    assert_eq!(number_of(evaluate(e, &arith)), 8.0);
    let e = binary(num(6.0), TokenType::Minus, "-", num(2.0));
    assert_eq!(number_of(evaluate(e, &arith)), 4.0);
    // what the caller computes is what comes back
    let seven = |_: Arithmetic, _: u64, _: u64| 7.0f64.to_bits();
    let e = binary(num(6.0), TokenType::Plus, "+", num(2.0));
    assert_eq!(number_of(evaluate(e, &seven)), 7.0);
}

#[test]
fn division_by_zero_is_no_failure() {
    let e = binary(num(1.0), TokenType::Slash, "/", num(0.0));
    assert_eq!(number_of(evaluate(e, &arith)), f64::INFINITY);
    let e = binary(num(0.0), TokenType::Slash, "/", num(0.0));
    assert!(number_of(evaluate(e, &arith)).is_nan());
}

#[test]
fn plus_joins_strings() {
    let e = binary(text("a"), TokenType::Plus, "+", text("b"));
    assert_eq!(string_of(evaluate(e, &arith)), "ab");
}

#[test]
fn plus_of_number_and_string_fails() {
    let e = binary(num(1.0), TokenType::Plus, "+", text("b"));
    let failure = failure_of(evaluate(e, &arith));
    assert_eq!(failure.message, "Operands must be two numbers or two strings.");
    assert_eq!(failure.token.token_type, TokenType::Plus);
    assert_eq!(failure.token.lexeme, "+");
    assert_eq!(failure.token.line, 3);
    let e = binary(text("b"), TokenType::Plus, "+", num(1.0));
    assert_eq!(
        failure_of(evaluate(e, &arith)).message,
        "Operands must be two numbers or two strings."
    );
    let e = binary(nil(), TokenType::Plus, "+", nil());
    assert_eq!(
        failure_of(evaluate(e, &arith)).message,
        "Operands must be two numbers or two strings."
    );
}

#[test]
fn arithmetic_on_other_values_fails() {
    for (kind, lexeme) in
        [(TokenType::Minus, "-"), (TokenType::Slash, "/"), (TokenType::Star, "*")]
    {
        let e = binary(num(1.0), kind, lexeme, text("b"));
        let failure = failure_of(evaluate(e, &arith));
        assert_eq!(failure.message, "Operands must be numbers.");
        assert_eq!(failure.token.lexeme, lexeme);
        let e = binary(boolean(true), kind, lexeme, num(1.0));
        assert_eq!(failure_of(evaluate(e, &arith)).message, "Operands must be numbers.");
    }
}

#[test]
fn comparison_of_numbers() {
    let cases = [
        (TokenType::Greater, ">", 2.0, 1.0, true),
        (TokenType::Greater, ">", 1.0, 1.0, false),
        (TokenType::GreaterEqual, ">=", 1.0, 1.0, true),
        (TokenType::GreaterEqual, ">=", 0.0, 1.0, false),
        (TokenType::Less, "<", 1.0, 2.0, true),
        (TokenType::Less, "<", 2.0, 2.0, false),
        (TokenType::LessEqual, "<=", 2.0, 2.0, true),
        (TokenType::LessEqual, "<=", 3.0, 2.0, false),
        (TokenType::Less, "<", -1.0, 0.5, true),
        (TokenType::Greater, ">", -1.0, -2.0, true),
    ];
    for (kind, lexeme, x, y, expected) in cases {
        let e = binary(num(x), kind, lexeme, num(y));
        assert_eq!(bool_of(evaluate(e, &arith)), expected, "{x} {lexeme} {y}");
    }
}

#[test]
fn comparison_of_other_values_fails() {
    for (kind, lexeme) in [
        (TokenType::Greater, ">"),
        (TokenType::GreaterEqual, ">="),
        (TokenType::Less, "<"),
        (TokenType::LessEqual, "<="),
    ] {
        let e = binary(text("a"), kind, lexeme, text("b"));
        assert_eq!(failure_of(evaluate(e, &arith)).message, "Operands must be numbers.");
        let e = binary(num(1.0), kind, lexeme, nil());
        assert_eq!(failure_of(evaluate(e, &arith)).message, "Operands must be numbers.");
    }
}

#[test]
fn truthiness() {
    assert!(bool_of(evaluate(unary(TokenType::Bang, "!", nil()), &arith)));
    assert!(!bool_of(evaluate(unary(TokenType::Bang, "!", num(0.0)), &arith)));
    assert!(bool_of(evaluate(unary(TokenType::Bang, "!", boolean(false)), &arith)));
    assert!(!bool_of(evaluate(unary(TokenType::Bang, "!", boolean(true)), &arith)));
    assert!(!bool_of(evaluate(unary(TokenType::Bang, "!", text("")), &arith)));
    assert!(!is_truthy(Object::Nil));
    assert!(!is_truthy(Object::Bool(false)));
    assert!(is_truthy(Object::Bool(true)));
    assert!(is_truthy(Object::Number(0)));
    assert!(is_truthy(Object::Str(String::new())));
}

#[test]
fn equality_has_no_coercion() {
    let e = binary(num(1.0), TokenType::EqualEqual, "==", text("1"));
    assert!(!bool_of(evaluate(e, &arith)));
    let e = binary(nil(), TokenType::EqualEqual, "==", boolean(false));
    assert!(!bool_of(evaluate(e, &arith)));
    let e = binary(nil(), TokenType::EqualEqual, "==", nil());
    assert!(bool_of(evaluate(e, &arith)));
    let e = binary(num(1.0), TokenType::BangEqual, "!=", text("1"));
    assert!(bool_of(evaluate(e, &arith)));
    let e = binary(text("a"), TokenType::EqualEqual, "==", text("a"));
    assert!(bool_of(evaluate(e, &arith)));
    let e = binary(text("a"), TokenType::BangEqual, "!=", text("b"));
    assert!(bool_of(evaluate(e, &arith)));
    let e = binary(num(2.0), TokenType::EqualEqual, "==", num(2.0));
    assert!(bool_of(evaluate(e, &arith)));
    let e = binary(boolean(true), TokenType::EqualEqual, "==", boolean(true));
    assert!(bool_of(evaluate(e, &arith)));
}

#[test]
fn is_equal_on_values() {
    assert!(is_equal(Object::Nil, Object::Nil));
    assert!(!is_equal(Object::Nil, Object::Bool(false)));
    assert!(!is_equal(Object::Number(0), Object::Bool(false)));
    assert!(!is_equal(Object::Number(1.0f64.to_bits()), Object::Str("1".to_string())));
    assert!(is_equal(Object::Number(0.0f64.to_bits()), Object::Number((-0.0f64).to_bits())));
    assert!(!is_equal(Object::Number(f64::NAN.to_bits()), Object::Number(f64::NAN.to_bits())));
    assert!(is_equal(Object::Str("x".to_string()), Object::Str("x".to_string())));
    assert!(!is_equal(Object::Str("x".to_string()), Object::Str("y".to_string())));
    assert!(!is_equal(Object::Bool(true), Object::Bool(false)));
}

#[test]
fn negation() {
    assert_eq!(number_of(evaluate(unary(TokenType::Minus, "-", num(4.0)), &arith)), -4.0);
    let z = number_of(evaluate(unary(TokenType::Minus, "-", num(0.0)), &arith));
    assert!(z == 0.0 && z.is_sign_negative());
    let failure = failure_of(evaluate(unary(TokenType::Minus, "-", text("a")), &arith));
    assert_eq!(failure.message, "Operand must be a number.");
    assert_eq!(failure.token.token_type, TokenType::Minus);
}

#[test]
fn grouping_changes_nothing() {
    let inner = || binary(num(2.0), TokenType::Plus, "+", num(3.0));
    assert_eq!(number_of(evaluate(inner(), &arith)), 5.0);
    assert_eq!(number_of(evaluate(group(inner()), &arith)), 5.0);
    assert_eq!(number_of(evaluate(group(group(inner())), &arith)), 5.0);
    let bad = || binary(num(2.0), TokenType::Plus, "+", nil());
    let plain = failure_of(evaluate(bad(), &arith));
    let once = failure_of(evaluate(group(bad()), &arith));
    let twice = failure_of(evaluate(group(group(bad())), &arith));
    assert_eq!(plain.message, once.message);
    assert_eq!(plain.message, twice.message);
}

#[test]
fn first_failure_wins() {
    // (-"a") + (1 - nil): the left operand fails first
    let e = binary(
        unary(TokenType::Minus, "-", text("a")),
        TokenType::Plus,
        "+",
        binary(num(1.0), TokenType::Minus, "-", nil()),
    );
    assert_eq!(failure_of(evaluate(e, &arith)).message, "Operand must be a number.");
}

#[test]
fn other_operators_give_nil() {
    let e = binary(num(1.0), TokenType::Comma, ",", num(2.0));
    assert!(matches!(evaluate(e, &arith), Ok(Object::Nil)));
    let e = unary(TokenType::Plus, "+", num(2.0));
    assert!(matches!(evaluate(e, &arith), Ok(Object::Nil)));
}

#[test]
fn operators_apply_to_values() {
    let out = apply_unary(op(TokenType::Bang, "!"), Object::Nil);
    assert!(bool_of(out));
    let out = apply_binary(
        op(TokenType::Star, "*"),
        Object::Number(3.0f64.to_bits()),
        Object::Number(4.0f64.to_bits()),
        &arith,
    );
    assert_eq!(number_of(out), 12.0);
    let out = apply_plain_binary(
        op(TokenType::Plus, "+"),
        Object::Str("x".to_string()),
        Object::Str("y".to_string()),
    );
    assert_eq!(string_of(out), "xy");
    let out = apply_plain_binary(op(TokenType::Star, "*"), Object::Nil, Object::Nil);
    assert_eq!(failure_of(out).message, "Operands must be numbers.");
}

#[test]
fn requests_for_arithmetic() {
    let a = Object::Number(1);
    let b = Object::Number(2);
    assert_eq!(
        request_of(&op(TokenType::Minus, "-"), &a, &b),
        Some((Arithmetic::Subtract, 1, 2))
    );
    assert_eq!(request_of(&op(TokenType::Slash, "/"), &a, &b), Some((Arithmetic::Divide, 1, 2)));
    assert_eq!(request_of(&op(TokenType::Star, "*"), &a, &b), Some((Arithmetic::Multiply, 1, 2)));
    assert_eq!(request_of(&op(TokenType::Plus, "+"), &a, &b), Some((Arithmetic::Add, 1, 2)));
    assert_eq!(request_of(&op(TokenType::Less, "<"), &a, &b), None);
    assert_eq!(request_of(&op(TokenType::Plus, "+"), &a, &Object::Nil), None);
}

#[test]
fn error_constructors() {
    let e = addition_operands_error(op(TokenType::Plus, "+"));
    assert_eq!(e.message, "Operands must be two numbers or two strings.");
    assert_eq!(e.token.lexeme, "+");
    let e = number_operands_error(op(TokenType::Star, "*"));
    assert_eq!(e.message, "Operands must be numbers.");
    let e = number_operand_error(op(TokenType::Minus, "-"));
    assert_eq!(e.message, "Operand must be a number.");
    let e = RuntimeError::new(op(TokenType::Minus, "-"), "m".to_string());
    assert_eq!(e.message, "m");
    assert_eq!(e.token.line, 3);
}

#[test]
fn stringify_values() {
    assert_eq!(interpreter::stringify(Object::Str("raw text".to_string()), &decimal), "raw text");
    assert_eq!(interpreter::stringify(Object::Bool(true), &decimal), "true");
    assert_eq!(interpreter::stringify(Object::Bool(false), &decimal), "false");
    assert_eq!(interpreter::stringify(Object::Nil, &decimal), "nil");
    assert_eq!(interpreter::stringify(Object::Number(3.0f64.to_bits()), &decimal), "3");
    assert_eq!(interpreter::stringify(Object::Number(2.5f64.to_bits()), &decimal), "2.5");
    assert_eq!(
        interpreter::stringify(Object::Number((1.0f64 / 3.0).to_bits()), &decimal),
        "0.3333333333333333"
    );
    assert_eq!(interpreter::stringify(Object::Number((-0.0f64).to_bits()), &decimal), "-0");
}

#[test]
fn stringify_strips_a_zero_fraction() {
    let with_fraction = |bits: u64| format!("{:?}", f64::from_bits(bits));
    assert_eq!(interpreter::stringify(Object::Number(3.0f64.to_bits()), &with_fraction), "3");
    assert_eq!(interpreter::stringify(Object::Number(2.5f64.to_bits()), &with_fraction), "2.5");
    assert_eq!(interpreter::stringify(Object::Number(10.0f64.to_bits()), &with_fraction), "10");
    assert_eq!(strip_zero_fraction("3.0".to_string()), "3");
    assert_eq!(strip_zero_fraction("3.05".to_string()), "3.05");
    assert_eq!(strip_zero_fraction("30".to_string()), "30");
    assert_eq!(strip_zero_fraction(".0".to_string()), "");
    assert_eq!(strip_zero_fraction("0".to_string()), "0");
    assert_eq!(strip_zero_fraction("".to_string()), "");
    assert_eq!(strip_zero_fraction("1.0.0".to_string()), "1.0");
}
