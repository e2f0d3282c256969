use lox::ast::{Binary, Expr, Grouping, Literal, Unary};
use lox::ast_printer::{kind_to_text, literal_to_text, print_ast};
use lox::token::{Object, Token, TokenType};

fn shortest(bits: u64) -> String {
    f64::from_bits(bits).to_string()
}

fn with_point(bits: u64) -> String {
    format!("{:?}", f64::from_bits(bits))
}

fn operator(token_type: TokenType, lexeme: &str) -> Token {
    Token { token_type, lexeme: lexeme.to_string(), literal: None, line: 1 }
}

fn literal(x: f64) -> Expr {
    Expr::Literal(Literal { value: Object::Number(x.to_bits()) })
}

#[test]
fn tree_in_prefix_form() {
    // -123 * (45.67)
    let e = Expr::Binary(Binary {
        left: Box::new(Expr::Unary(Unary {
            operator: operator(TokenType::Minus, "-"),
            right: Box::new(literal(123.0)),
        })),
        operator: operator(TokenType::Star, "*"),
        right: Box::new(Expr::Grouping(Grouping { expression: Box::new(literal(45.67)) })),
    });
    assert_eq!(print_ast(&e, &shortest), "(* (- Number(123)) (group Number(45.67)))");
    assert_eq!(print_ast(&e, &with_point), "(* (- Number(123.0)) (group Number(45.67)))");
}

#[test]
fn literals_by_variant() {
    assert_eq!(literal_to_text(&Object::Nil, &shortest), "Nil");
    assert_eq!(literal_to_text(&Object::Bool(true), &shortest), "Bool(true)");
    assert_eq!(literal_to_text(&Object::Bool(false), &shortest), "Bool(false)");
    assert_eq!(literal_to_text(&Object::Number(0.5f64.to_bits()), &shortest), "Number(0.5)");
    assert_eq!(literal_to_text(&Object::Str("a".to_string()), &shortest), "Str(\"a\")");
    assert_eq!(
        literal_to_text(&Object::Str("tab\there \\ \"q\"".to_string()), &shortest),
        "Str(\"tab\\there \\\\ \\\"q\\\"\")"
    );
    assert_eq!(literal_to_text(&Object::Str(String::new()), &shortest), "Str(\"\")");
}

#[test]
fn quoting_is_that_of_debug() {
    for text in ["", "plain", "new\nline", "quote\"s", "back\\slash", "\u{e9}\u{0}\u{7f}"] {
        assert_eq!(
            literal_to_text(&Object::Str(text.to_string()), &shortest),
            format!("Str({:?})", text)
        );
    }
}

#[test]
fn category_names() {
    assert_eq!(kind_to_text(TokenType::LeftParen), "LeftParen");
    assert_eq!(kind_to_text(TokenType::BangEqual), "BangEqual");
    assert_eq!(kind_to_text(TokenType::String), "String");
    assert_eq!(kind_to_text(TokenType::While), "While");
    assert_eq!(kind_to_text(TokenType::Eof), "Eof");
    let all = [
        TokenType::LeftParen,
        TokenType::RightParen,
        TokenType::LeftBrace,
        TokenType::RightBrace,
        TokenType::Comma,
        TokenType::Dot,
        TokenType::Minus,
        TokenType::Plus,
        TokenType::Semicolon,
        TokenType::Slash,
        TokenType::Star,
        TokenType::Bang,
        TokenType::BangEqual,
        TokenType::Equal,
        TokenType::EqualEqual,
        TokenType::Greater,
        TokenType::GreaterEqual,
        TokenType::Less,
        TokenType::LessEqual,
        TokenType::Identifier,
        TokenType::String,
        TokenType::Number,
        TokenType::And,
        TokenType::Class,
        TokenType::Else,
        TokenType::False,
        TokenType::Fun,
        TokenType::For,
        TokenType::If,
        TokenType::Nil,
        TokenType::Or,
        TokenType::Print,
        TokenType::Return,
        TokenType::Super,
        TokenType::This,
        TokenType::True,
        TokenType::Var,
        TokenType::While,
        TokenType::Eof,
    ];
    for kind in all {
        assert_eq!(kind_to_text(kind), format!("{kind:?}"));
    }
}

#[test]
fn token_text() {
    let plus = operator(TokenType::Plus, "+");
    assert_eq!(plus.to_text(&shortest), "Plus + None");
    let number = Token {
        token_type: TokenType::Number,
        lexeme: "1.50".to_string(),
        literal: Some(Object::Number(1.5f64.to_bits())),
        line: 2,
    };
    assert_eq!(number.to_text(&shortest), "Number 1.50 Some(Number(1.5))");
    let string = Token {
        token_type: TokenType::String,
        lexeme: "\"hi\"".to_string(),
        literal: Some(Object::Str("hi".to_string())),
        line: 2,
    };
    assert_eq!(string.to_text(&shortest), "String \"hi\" Some(Str(\"hi\"))");
    let end = Token { token_type: TokenType::Eof, lexeme: String::new(), literal: None, line: 9 };
    assert_eq!(end.to_text(&shortest), "Eof  None");
}

#[test]
fn copies_are_equal() {
    let token = Token {
        token_type: TokenType::String,
        lexeme: "\"hi\"".to_string(),
        literal: Some(Object::Str("hi".to_string())),
        line: 2,
    };
    let copy = token.clone();
    assert_eq!(copy.token_type, token.token_type);
    assert_eq!(copy.lexeme, token.lexeme);
    assert_eq!(copy.line, token.line);
    assert!(matches!(
        (&copy.literal, &token.literal),
        (Some(Object::Str(a)), Some(Object::Str(b))) if a == b
    ));
    assert!(matches!(Object::Number(7).clone(), Object::Number(7)));
    assert!(matches!(Object::Bool(true).clone(), Object::Bool(true)));
    assert!(matches!(Object::Nil.clone(), Object::Nil));
}
