use rs_lox::compiler::compile;
use rs_lox::scanner::{Scanner, TokenType};

fn kinds(source: &str) -> Vec<TokenType> {
    let mut scanner = Scanner::new(source);
    let mut out = Vec::new();
    loop {
        let t = scanner.scan_token();
        let k = t.get_token_type();
        out.push(k);
        if k == TokenType::Eof {
            return out;
        }
    }
}

#[test]
fn blank_source_reaches_end_with_line_count() {
    let mut scanner = Scanner::new("  \n\t\r\n ");
    let t = scanner.scan_token();
    assert_eq!(t.get_token_type(), TokenType::Eof);
    assert_eq!(t.get_line(), 3);
    assert_eq!(t.get_start(), 7);
    assert_eq!(t.get_length(), 0);
    let again = scanner.scan_token();
    assert_eq!(again.get_token_type(), TokenType::Eof);
}

#[test]
fn empty_source_is_end_on_line_one() {
    let mut scanner = Scanner::new("");
    let t = scanner.scan_token();
    assert_eq!(t.get_token_type(), TokenType::Eof);
    assert_eq!(t.get_line(), 1);
}

#[test]
fn number_with_fraction_is_one_token() {
    let mut scanner = Scanner::new("3.14");
    let t = scanner.scan_token();
    assert_eq!(t.get_token_type(), TokenType::Number);
    assert_eq!(t.get_start(), 0);
    assert_eq!(t.get_length(), 4);
    assert_eq!(scanner.scan_token().get_token_type(), TokenType::Eof);
}

#[test]
fn number_leaves_trailing_dot() {
    let mut scanner = Scanner::new("12.");
    let t = scanner.scan_token();
    assert_eq!(t.get_token_type(), TokenType::Number);
    assert_eq!(t.get_length(), 2);
    let dot = scanner.scan_token();
    assert_eq!(dot.get_token_type(), TokenType::Dot);
    assert_eq!(dot.get_start(), 2);
    assert_eq!(scanner.scan_token().get_token_type(), TokenType::Eof);
}

#[test]
fn keywords_are_classified() {
    let table = [
        ("and", TokenType::And),
        ("class", TokenType::Class),
        ("else", TokenType::Else),
        ("false", TokenType::False),
        ("for", TokenType::For),
        ("fun", TokenType::Fun),
        ("if", TokenType::If),
        ("nil", TokenType::Nil),
        ("or", TokenType::Or),
        ("print", TokenType::Print),
        ("return", TokenType::Return),
        ("super", TokenType::Super),
        ("this", TokenType::This),
        ("true", TokenType::True),
        ("var", TokenType::Var),
        ("while", TokenType::While),
    ];
    for (word, kind) in table.iter() {
        let mut scanner = Scanner::new(word);
        let t = scanner.scan_token();
        assert_eq!(t.get_token_type(), *kind);
        assert_eq!(t.get_length(), word.chars().count());
    }
}

#[test]
fn other_words_are_identifiers() {
    for word in ["andy", "Class", "fo", "whilex", "x1", "été"].iter() {
        let mut scanner = Scanner::new(word);
        let t = scanner.scan_token();
        assert_eq!(t.get_token_type(), TokenType::Identifier);
        assert_eq!(t.get_length(), word.chars().count());
    }
}

#[test]
fn punctuation_and_operators() {
    assert_eq!(
        kinds("(){};,.-+/*! != = == < <= > >="),
        vec![
            TokenType::LeftParen,
            TokenType::RightParen,
            TokenType::LeftBrace,
            TokenType::RightBrace,
            TokenType::Semicolon,
            TokenType::Comma,
            TokenType::Dot,
            TokenType::Minus,
            TokenType::Plus,
            TokenType::Slash,
            TokenType::Star,
            TokenType::Bang,
            TokenType::BangEqual,
            TokenType::Equal,
            TokenType::EqualEqual,
            TokenType::Less,
            TokenType::LessEqual,
            TokenType::Greater,
            TokenType::GreaterEqual,
            TokenType::Eof,
        ]
    );
    let mut scanner = Scanner::new("!=");
    assert_eq!(scanner.scan_token().get_length(), 2);
}

#[test]
fn string_literal_spans_quotes_and_counts_lines() {
    let mut scanner = Scanner::new("\"hi\nthere\" x");
    let t = scanner.scan_token();
    assert_eq!(t.get_token_type(), TokenType::String);
    assert_eq!(t.get_start(), 0);
    assert_eq!(t.get_length(), 10);
    assert_eq!(t.get_line(), 2);
    assert!(t.error.is_none());
    let x = scanner.scan_token();
    assert_eq!(x.get_token_type(), TokenType::Identifier);
    assert_eq!(x.get_line(), 2);
}

#[test]
fn unterminated_string_is_error() {
    let mut scanner = Scanner::new("\"abc");
    let t = scanner.scan_token();
    assert_eq!(t.get_token_type(), TokenType::Error);
    assert_eq!(t.error.as_deref(), Some("Unterminated string"));
    assert_eq!(t.get_length(), 19);
    assert_eq!(scanner.scan_token().get_token_type(), TokenType::Eof);
}

#[test]
fn unexpected_character_is_error() {
    let mut scanner = Scanner::new("@_");
    let t = scanner.scan_token();
    assert_eq!(t.get_token_type(), TokenType::Error);
    assert_eq!(t.error.as_deref(), Some("Unexpected character."));
    assert_eq!(t.get_start(), 0);
    let u = scanner.scan_token();
    assert_eq!(u.get_token_type(), TokenType::Error);
    assert_eq!(u.get_start(), 1);
}

#[test]
fn get_token_slices_by_characters() {
    let scanner = Scanner::new("var été = 12;");
    assert_eq!(scanner.get_token(4, 3), "été");
    assert_eq!(scanner.get_token(10, 10), "12;");
    assert_eq!(scanner.get_token(100, 2), "");
}

#[test]
fn compile_collects_tokens_until_end() {
    let tokens = compile("print 1 + 2.5;\nx");
    let ks: Vec<TokenType> = tokens.iter().map(|t| t.get_token_type()).collect();
    assert_eq!(
        ks,
        vec![
            TokenType::Print,
            TokenType::Number,
            TokenType::Plus,
            TokenType::Number,
            TokenType::Semicolon,
            TokenType::Identifier,
        ]
    );
    assert_eq!(tokens[3].get_start(), 10);
    assert_eq!(tokens[3].get_length(), 3);
    assert_eq!(tokens[5].get_line(), 2);
}

#[test]
fn compile_stops_at_error() {
    let tokens = compile("a @ b");
    assert_eq!(tokens.len(), 1);
    assert_eq!(tokens[0].get_token_type(), TokenType::Identifier);
}
