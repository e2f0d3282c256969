use lox::scanner::{classify, keyword_kind, Scan, Scanner};
use lox::token::{Object, Token, TokenType};

fn table_of(words: Vec<(&'static str, TokenType)>) -> phf::Map<&'static str, TokenType> {
    let keys: Vec<&'static str> = words.iter().map(|w| w.0).collect();
    let state = phf_generator::generate_hash(&keys);
    let entries: Vec<(&'static str, TokenType)> = state.map.iter().map(|&i| words[i]).collect();
    phf::Map {
        key: state.key,
        disps: Box::leak(state.disps.into_boxed_slice()),
        entries: Box::leak(entries.into_boxed_slice()),
    }
}

fn table() -> phf::Map<&'static str, TokenType> {
    table_of(vec![
        ("and", TokenType::And),
        ("class", TokenType::Class),
        ("else", TokenType::Else),
        ("false", TokenType::False),
        ("for", TokenType::For),
        ("fun", TokenType::Fun),
        ("if", TokenType::If),
        ("nil", TokenType::Nil),
        ("or", TokenType::Or),
        ("print", TokenType::Print),
        ("return", TokenType::Return),
        ("super", TokenType::Super),
        ("this", TokenType::This),
        ("true", TokenType::True),
        ("var", TokenType::Var),
        ("while", TokenType::While),
    ])
}

fn parse_number(text: String) -> u64 {
    text.parse::<f64>().unwrap().to_bits()
}

fn scan(source: &str) -> Scan {
    let table = table();
    let source = source.to_string();
    Scanner::new(&source, &table).scan_tokens(&parse_number)
}

fn kinds(source: &str) -> Vec<TokenType> {
    scan(source).tokens.iter().map(|t| t.token_type).collect()
}

fn lexemes(source: &str) -> Vec<String> {
    scan(source).tokens.iter().map(|t| t.lexeme.clone()).collect()
}

fn number_in(token: &Token) -> f64 {
    match &token.literal {
        Some(Object::Number(bits)) => f64::from_bits(*bits),
        other => panic!("no number: {other:?}"),
    }
}

#[test]
fn empty_source_is_the_end_marker() {
    let found = scan("");
    assert_eq!(found.tokens.len(), 1);
    assert_eq!(found.tokens[0].token_type, TokenType::Eof);
    assert_eq!(found.tokens[0].lexeme, "");
    assert!(found.tokens[0].literal.is_none());
    assert_eq!(found.tokens[0].line, 1);
    assert!(found.errors.is_empty());
}

#[test]
fn single_character_tokens() {
    assert_eq!(
        kinds("(){},.-+;*/"),
        vec![
            TokenType::LeftParen,
            TokenType::RightParen,
            TokenType::LeftBrace,
            TokenType::RightBrace,
            TokenType::Comma,
            TokenType::Dot,
            TokenType::Minus,
            TokenType::Plus,
            TokenType::Semicolon,
            TokenType::Star,
            TokenType::Slash,
            TokenType::Eof,
        ]
    );
}

#[test]
fn one_or_two_character_tokens() {
    assert_eq!(
        kinds("! != = == < <= > >="),
        vec![
            TokenType::Bang,
            TokenType::BangEqual,
            TokenType::Equal,
            TokenType::EqualEqual,
            TokenType::Less,
            TokenType::LessEqual,
            TokenType::Greater,
            TokenType::GreaterEqual,
            TokenType::Eof,
        ]
    );
    assert_eq!(lexemes("!==<=>"), vec!["!=", "=", "<=", ">", ""]);
    assert_eq!(kinds("!"), vec![TokenType::Bang, TokenType::Eof]);
}

#[test]
fn comments_run_to_the_end_of_the_line() {
    assert_eq!(
        kinds("1 // two three\n4"),
        vec![TokenType::Number, TokenType::Number, TokenType::Eof]
    );
    assert_eq!(kinds("// only a comment"), vec![TokenType::Eof]);
    let found = scan("// c\n+");
    assert_eq!(found.tokens[0].line, 2);
}

#[test]
fn lines_count_from_one() {
    let found = scan("1\n2\n\n3");
    let lines: Vec<i32> = found.tokens.iter().map(|t| t.line).collect();
    assert_eq!(lines, vec![1, 2, 4, 4]);
}

#[test]
fn whitespace_gives_no_token() {
    assert_eq!(kinds(" \t\r\n "), vec![TokenType::Eof]);
}

#[test]
fn numbers() {
    let found = scan("12 3.25 7. .5 1.2.3");
    let texts: Vec<&str> = found.tokens.iter().map(|t| t.lexeme.as_str()).collect();
    assert_eq!(texts, vec!["12", "3.25", "7", ".", ".", "5", "1.2", ".", "3", ""]);
    assert_eq!(found.tokens[0].token_type, TokenType::Number);
    assert_eq!(number_in(&found.tokens[0]), 12.0);
    assert_eq!(number_in(&found.tokens[1]), 3.25);
    assert_eq!(number_in(&found.tokens[2]), 7.0);
    assert_eq!(found.tokens[3].token_type, TokenType::Dot);
    assert_eq!(number_in(&found.tokens[6]), 1.2);
    assert!(found.errors.is_empty());
}

#[test]
fn number_values_are_the_callers() {
    let table = table();
    let source = "12 5".to_string();
    let found = Scanner::new(&source, &table).scan_tokens(&|text: String| text.len() as u64);
    assert!(matches!(found.tokens[0].literal, Some(Object::Number(2))));
    assert!(matches!(found.tokens[1].literal, Some(Object::Number(1))));
}

#[test]
fn strings() {
    let found = scan("\"hello\" \"\"");
    assert_eq!(found.tokens[0].token_type, TokenType::String);
    assert_eq!(found.tokens[0].lexeme, "\"hello\"");
    assert!(matches!(&found.tokens[0].literal, Some(Object::Str(s)) if s == "hello"));
    assert_eq!(found.tokens[1].lexeme, "\"\"");
    assert!(matches!(&found.tokens[1].literal, Some(Object::Str(s)) if s.is_empty()));
    assert_eq!(found.tokens.len(), 3);
}

#[test]
fn strings_may_span_lines() {
    let found = scan("\"a\nb\" +");
    assert!(matches!(&found.tokens[0].literal, Some(Object::Str(s)) if s == "a\nb"));
    assert_eq!(found.tokens[0].line, 2);
    assert_eq!(found.tokens[1].line, 2);
}

#[test]
fn strings_of_other_scripts() {
    let found = scan("\"\u{e9}\u{4e2d}\" 1");
    assert!(matches!(&found.tokens[0].literal, Some(Object::Str(s)) if s == "\u{e9}\u{4e2d}"));
    assert_eq!(found.tokens[1].lexeme, "1");
}

#[test]
fn unterminated_string() {
    let found = scan("1 \"abc\nd");
    assert_eq!(kinds("1 \"abc\nd"), vec![TokenType::Number, TokenType::Eof]);
    assert_eq!(found.errors.len(), 1);
    assert_eq!(found.errors[0].message, "Unterminated string.");
    assert_eq!(found.errors[0].line, 2);
    assert_eq!(found.tokens[1].line, 2);
}

#[test]
fn unexpected_character() {
    let found = scan("1 @\n# 2");
    assert_eq!(kinds("1 @\n# 2"), vec![TokenType::Number, TokenType::Number, TokenType::Eof]);
    assert_eq!(found.errors.len(), 2);
    assert_eq!(found.errors[0].message, "Unexpected character.");
    assert_eq!(found.errors[0].line, 1);
    assert_eq!(found.errors[1].message, "Unexpected character.");
    assert_eq!(found.errors[1].line, 2);
    // an underscore is no letter
    assert_eq!(scan("_").errors.len(), 1);
}

#[test]
fn keywords_and_identifiers() {
    assert_eq!(
        kinds("and class else false for fun if nil or print return super this true var while"),
        vec![
            TokenType::And,
            TokenType::Class,
            TokenType::Else,
            TokenType::False,
            TokenType::For,
            TokenType::Fun,
            TokenType::If,
            TokenType::Nil,
            TokenType::Or,
            TokenType::Print,
            TokenType::Return,
            TokenType::Super,
            TokenType::This,
            TokenType::True,
            TokenType::Var,
            TokenType::While,
            TokenType::Eof,
        ]
    );
    assert_eq!(
        kinds("printer Print x1 nil2"),
        vec![
            TokenType::Identifier,
            TokenType::Identifier,
            TokenType::Identifier,
            TokenType::Identifier,
            TokenType::Eof,
        ]
    );
    assert_eq!(lexemes("ab12 c"), vec!["ab12", "c", ""]);
}

#[test]
fn classify_reads_the_table() {
    let table = table();
    assert_eq!(classify(&table, "print"), TokenType::Print);
    assert_eq!(classify(&table, "while"), TokenType::While);
    assert_eq!(classify(&table, "prin"), TokenType::Identifier);
    assert_eq!(classify(&table, ""), TokenType::Identifier);
    let empty: phf::Map<&'static str, TokenType> = phf::Map::new();
    assert_eq!(classify(&empty, "print"), TokenType::Identifier);
    let small = table_of(vec![("si", TokenType::If)]);
    assert_eq!(classify(&small, "si"), TokenType::If);
    assert_eq!(classify(&small, "if"), TokenType::Identifier);
}

#[test]
fn table_without_entries_finds_nothing() {
    // no entry to pick, whatever the displacements
    let hollow: phf::Map<&'static str, TokenType> =
        phf::Map { key: 7, disps: &[(1, 2), (3, 4)], entries: &[] };
    assert_eq!(classify(&hollow, "print"), TokenType::Identifier);
    assert_eq!(classify(&hollow, ""), TokenType::Identifier);
    // entries that no displacement leads to
    let unreachable: phf::Map<&'static str, TokenType> =
        phf::Map { key: 7, disps: &[], entries: &[("print", TokenType::Print)] };
    assert_eq!(classify(&unreachable, "print"), TokenType::Identifier);
}

#[test]
fn only_keywords_come_from_the_table() {
    let odd = table_of(vec![
        ("one", TokenType::Number),
        ("end", TokenType::Eof),
        ("si", TokenType::If),
    ]);
    assert_eq!(classify(&odd, "one"), TokenType::Identifier);
    assert_eq!(classify(&odd, "end"), TokenType::Identifier);
    assert_eq!(classify(&odd, "si"), TokenType::If);
    assert!(keyword_kind(TokenType::While));
    assert!(keyword_kind(TokenType::And));
    assert!(!keyword_kind(TokenType::Identifier));
    assert!(!keyword_kind(TokenType::Number));
    assert!(!keyword_kind(TokenType::Eof));
}

#[test]
fn a_statement() {
    let found = scan("print (1 + 2.5) * \"x\";");
    let texts: Vec<&str> = found.tokens.iter().map(|t| t.lexeme.as_str()).collect();
    assert_eq!(texts, vec!["print", "(", "1", "+", "2.5", ")", "*", "\"x\"", ";", ""]);
    assert_eq!(found.tokens[0].token_type, TokenType::Print);
    assert!(found.tokens[0].literal.is_none());
    assert!(lox::parser::is_well_formed(&found.tokens));
}
