use lox::ast::{Expr, Expression, Literal, Print, Stmt};
use lox::interpreter::{interpret, Arithmetic, RuntimeError};
use lox::token::{Object, Token, TokenType};
use lox::Lox;

fn keyword_table() -> phf::Map<&'static str, TokenType> {
    let words: Vec<(&'static str, TokenType)> = vec![
        ("and", TokenType::And),
        ("class", TokenType::Class),
        ("else", TokenType::Else),
        ("false", TokenType::False),
        ("for", TokenType::For),
        ("fun", TokenType::Fun),
        ("if", TokenType::If),
        ("nil", TokenType::Nil),
        ("or", TokenType::Or),
        ("print", TokenType::Print),
        ("return", TokenType::Return),
        ("super", TokenType::Super),
        ("this", TokenType::This),
        ("true", TokenType::True),
        ("var", TokenType::Var),
        ("while", TokenType::While),
    ];
    let keys: Vec<&'static str> = words.iter().map(|w| w.0).collect();
    let state = phf_generator::generate_hash(&keys);
    let entries: Vec<(&'static str, TokenType)> = state.map.iter().map(|&i| words[i]).collect();
    phf::Map {
        key: state.key,
        disps: Box::leak(state.disps.into_boxed_slice()),
        entries: Box::leak(entries.into_boxed_slice()),
    }
}

fn read_number(text: String) -> u64 {
    text.parse::<f64>().unwrap().to_bits()
}

fn write_number(bits: u64) -> String {
    f64::from_bits(bits).to_string()
}

fn compute(op: Arithmetic, a: u64, b: u64) -> u64 {
    let (x, y) = (f64::from_bits(a), f64::from_bits(b));
    let z = match op {
        Arithmetic::Subtract => x - y,
        Arithmetic::Divide => x / y,
        Arithmetic::Multiply => x * y,
        Arithmetic::Add => x + y,
    };
    z.to_bits()
}

fn run(lox: &mut Lox, source: &str) -> (Vec<String>, Vec<String>) {
    let table = keyword_table();
    let report = lox.run(&source.to_string(), &table, &read_number, &compute, &write_number);
    (report.output, report.diagnostics)
}

fn plain_token(token_type: TokenType, lexeme: &str, line: i32) -> Token {
    Token { token_type, lexeme: lexeme.to_string(), literal: None, line }
}

fn number(x: f64) -> Expr {
    Expr::Literal(Literal { value: Object::Number(x.to_bits()) })
}

#[test]
fn new_driver_has_seen_no_error() {
    let lox = Lox::new();
    assert!(!lox.had_error);
    assert!(!lox.had_runtime_error);
}

#[test]
fn print_strips_the_zero_fraction() {
    let mut lox = Lox::new();
    let (output, diagnostics) = run(&mut lox, "print 6 / 2;");
    assert_eq!(output, vec!["3"]);
    assert!(diagnostics.is_empty());
    let (output, _) = run(&mut lox, "print 1 / 3;");
    assert_eq!(output, vec!["0.3333333333333333"]);
    assert!(!lox.had_error);
    assert!(!lox.had_runtime_error);
}

#[test]
fn print_of_each_kind_of_value() {
    let mut lox = Lox::new();
    let (output, diagnostics) = run(
        &mut lox,
        "print \"a\" + \"b\"; print nil; print 1 < 2; print !true;\nprint 2.5; print -0.5 * 4;\n1 + 1;",
    );
    assert_eq!(output, vec!["ab", "nil", "true", "false", "2.5", "-2"]);
    assert!(diagnostics.is_empty());
}

#[test]
fn precedence_in_programs() {
    let mut lox = Lox::new();
    let (output, _) = run(
        &mut lox,
        "print 1 - 2 - 3; print 2 + 3 * 4; print (2 + 3) * 4; print 8 / 4 / 2;",
    );
    assert_eq!(output, vec!["-4", "14", "20", "1"]);
}

#[test]
fn parse_failure_runs_nothing() {
    let mut lox = Lox::new();
    let (output, diagnostics) = run(&mut lox, "print 1; 1 + ; 2 * ;");
    assert!(output.is_empty());
    assert_eq!(
        diagnostics,
        vec![
            "[line 1] Error: at ';' Expect expression.",
            "[line 1] Error: at ';' Expect expression.",
        ]
    );
    assert!(lox.had_error);
    assert!(!lox.had_runtime_error);
}

#[test]
fn error_at_the_end() {
    let mut lox = Lox::new();
    let (output, diagnostics) = run(&mut lox, "print 1;\nprint 2");
    assert!(output.is_empty());
    assert_eq!(diagnostics, vec!["[line 2] Error: at end Expect ';' after value."]);
    assert!(lox.had_error);
}

#[test]
fn runtime_failure_stops_the_run() {
    let mut lox = Lox::new();
    let (output, diagnostics) = run(&mut lox, "print 1;\nprint 2 * nil;\nprint 3;");
    assert_eq!(output, vec!["1"]);
    assert_eq!(diagnostics, vec!["Operands must be numbers.\n[line 2]"]);
    assert!(!lox.had_error);
    assert!(lox.had_runtime_error);
}

#[test]
fn scanner_errors_come_first() {
    let mut lox = Lox::new();
    let (output, diagnostics) = run(&mut lox, "print 1; @\nprint -\"a\";");
    assert_eq!(output, vec!["1"]);
    assert_eq!(
        diagnostics,
        vec!["[line 1] Error: Unexpected character.", "Operand must be a number.\n[line 2]"]
    );
    assert!(lox.had_error);
    assert!(lox.had_runtime_error);
    let mut lox = Lox::new();
    let (output, diagnostics) = run(&mut lox, "print \"open");
    assert!(output.is_empty());
    assert_eq!(
        diagnostics,
        vec!["[line 1] Error: Unterminated string.", "[line 1] Error: at end Expect expression."]
    );
}

#[test]
fn errors_are_remembered() {
    let mut lox = Lox::new();
    run(&mut lox, "1 +;");
    assert!(lox.had_error);
    let (output, diagnostics) = run(&mut lox, "print 1;");
    assert_eq!(output, vec!["1"]);
    assert!(diagnostics.is_empty());
    assert!(lox.had_error);
    assert!(!lox.had_runtime_error);
}

#[test]
fn diagnostics_are_worded() {
    let mut lox = Lox::new();
    let token = plain_token(TokenType::Star, "*", 12);
    assert_eq!(
        lox.error(token, "Expect expression.".to_string()),
        "[line 12] Error: at '*' Expect expression."
    );
    assert!(lox.had_error);
    let token = plain_token(TokenType::Eof, "", 4);
    assert_eq!(
        lox.error(token, "Expect expression.".to_string()),
        "[line 4] Error: at end Expect expression."
    );
    assert_eq!(lox.report(-7, "m".to_string()), "[line -7] Error: m");
    assert!(!lox.had_runtime_error);
    let mut lox = Lox::new();
    let token = plain_token(TokenType::Minus, "-", 30);
    let line = lox.runtime_error(RuntimeError {
        token,
        message: "Operand must be a number.".to_string(),
    });
    assert_eq!(line, "Operand must be a number.\n[line 30]");
    assert!(lox.had_runtime_error);
    assert!(!lox.had_error);
}

#[test]
fn interpret_collects_the_output() {
    let statements = vec![
        Stmt::Print(Print { expression: number(1.0) }),
        Stmt::Expression(Expression { expression: number(2.0) }),
        Stmt::Print(Print {
            expression: Expr::Literal(Literal { value: Object::Str("s".to_string()) }),
        }),
    ];
    let run = interpret(statements, &compute, &write_number);
    assert_eq!(run.output, vec!["1", "s"]);
    assert!(run.failure.is_none());
    let run = interpret(Vec::new(), &compute, &write_number);
    assert!(run.output.is_empty());
    assert!(run.failure.is_none());
}

#[test]
fn interpret_stops_at_the_first_failure() {
    let minus = plain_token(TokenType::Minus, "-", 2);
    let bad = Expr::Unary(lox::ast::Unary {
        operator: minus,
        right: Box::new(Expr::Literal(Literal { value: Object::Nil })),
    });
    let statements = vec![
        Stmt::Print(Print { expression: number(1.0) }),
        Stmt::Expression(Expression { expression: bad }),
        Stmt::Print(Print { expression: number(3.0) }),
    ];
    let run = interpret(statements, &compute, &write_number);
    assert_eq!(run.output, vec!["1"]);
    let failure = run.failure.expect("a failure");
    assert_eq!(failure.message, "Operand must be a number.");
    assert_eq!(failure.token.line, 2);
}
