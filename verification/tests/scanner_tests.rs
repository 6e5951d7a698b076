use jlox::scanner::{ScanDiagnostic, Scanner};
use jlox::token::{Literal, Token, TokenType};

fn scan_source(source: &str) -> (Vec<Token>, Vec<ScanDiagnostic>) {
    let mut scanner = Scanner::new(source.chars().collect());
    scanner.scan();
    (scanner.tokens, scanner.diagnostics)
}

fn kinds(tokens: &[Token]) -> Vec<TokenType> {
    tokens.iter().map(|t| t.typ).collect()
}

#[test]
fn token_termination_simple() {
    let (tokens, diags) = scan_source("1 + 2");
    assert_eq!(
        kinds(&tokens),
        vec![TokenType::Number, TokenType::Plus, TokenType::Number, TokenType::Eof]
    );
    assert_eq!(tokens.iter().filter(|t| t.typ == TokenType::Eof).count(), 1);
    assert!(diags.is_empty());
}

#[test]
fn token_termination_empty_input() {
    let (tokens, diags) = scan_source("");
    assert_eq!(kinds(&tokens), vec![TokenType::Eof]);
    assert_eq!(tokens[0].lexeme, "");
    assert_eq!(tokens[0].line, 1);
    assert!(tokens[0].literal.is_none());
    assert!(diags.is_empty());
}

#[test]
fn maximal_munch_not_equal() {
    let (tokens, _) = scan_source("!=");
    assert_eq!(kinds(&tokens), vec![TokenType::NotEqual, TokenType::Eof]);
    assert_eq!(tokens[0].lexeme, "!=");
}

#[test]
fn maximal_munch_other_operators() {
    let (tokens, _) = scan_source("== <= >= = ! < >");
    assert_eq!(
        kinds(&tokens),
        vec![
            TokenType::EqualEqual,
            TokenType::LessEqual,
            TokenType::GreaterEqual,
            TokenType::Equal,
            TokenType::Not,
            TokenType::Less,
            TokenType::Greater,
            TokenType::Eof
        ]
    );
}

#[test]
fn unterminated_string_recovery() {
    let (tokens, diags) = scan_source("\"abc");
    assert_eq!(kinds(&tokens), vec![TokenType::Eof]);
    assert_eq!(diags, vec![ScanDiagnostic::UnterminatedString]);
}

#[test]
fn string_literal_payload() {
    let (tokens, diags) = scan_source("\"hi\"");
    assert_eq!(kinds(&tokens), vec![TokenType::String, TokenType::Eof]);
    assert_eq!(tokens[0].lexeme, "\"hi\"");
    match &tokens[0].literal {
        Some(Literal::String(s)) => assert_eq!(s, "hi"),
        other => panic!("wrong literal: {:?}", other),
    }
    assert!(diags.is_empty());
}

#[test]
fn string_counts_embedded_newlines() {
    let (tokens, _) = scan_source("\"a\nb\"");
    assert_eq!(kinds(&tokens), vec![TokenType::String, TokenType::Eof]);
    assert_eq!(tokens[0].line, 2);
    assert_eq!(tokens[1].line, 2);
}

#[test]
fn number_with_fraction() {
    let (tokens, _) = scan_source("12.5");
    assert_eq!(kinds(&tokens), vec![TokenType::Number, TokenType::Eof]);
    assert_eq!(tokens[0].lexeme, "12.5");
    match &tokens[0].literal {
        Some(Literal::Number(s)) => assert_eq!(s, "12.5"),
        other => panic!("wrong literal: {:?}", other),
    }
}

#[test]
fn number_trailing_dot_not_consumed() {
    let (tokens, _) = scan_source("12.");
    assert_eq!(kinds(&tokens), vec![TokenType::Number, TokenType::Dot, TokenType::Eof]);
    assert_eq!(tokens[0].lexeme, "12");
}

#[test]
fn keywords_and_identifiers() {
    let (tokens, _) = scan_source("and orchid while return nil");
    assert_eq!(
        kinds(&tokens),
        vec![
            TokenType::And,
            TokenType::Identifier,
            TokenType::While,
            TokenType::Return,
            TokenType::Nil,
            TokenType::Eof
        ]
    );
    assert_eq!(tokens[1].lexeme, "orchid");
}

#[test]
fn comment_runs_to_end_of_line() {
    let (tokens, diags) = scan_source("1 // ignored! \"\n2");
    assert_eq!(kinds(&tokens), vec![TokenType::Number, TokenType::Number, TokenType::Eof]);
    assert_eq!(tokens[0].line, 1);
    assert_eq!(tokens[1].line, 2);
    assert!(diags.is_empty());
}

#[test]
fn slash_alone_is_a_token() {
    let (tokens, _) = scan_source("1/2");
    assert_eq!(kinds(&tokens), vec![TokenType::Number, TokenType::Slash, TokenType::Number, TokenType::Eof]);
}

#[test]
fn unexpected_symbol_reported_and_skipped() {
    let (tokens, diags) = scan_source("@1");
    assert_eq!(kinds(&tokens), vec![TokenType::Number, TokenType::Eof]);
    assert_eq!(diags, vec![ScanDiagnostic::UnexpectedSymbol('@')]);
}

#[test]
fn punctuation_tokens() {
    let (tokens, _) = scan_source("(){},.-+;*");
    assert_eq!(
        kinds(&tokens),
        vec![
            TokenType::LeftParenthesis,
            TokenType::RightParenthesis,
            TokenType::LeftBrace,
            TokenType::RightBrace,
            TokenType::Comma,
            TokenType::Dot,
            TokenType::Minus,
            TokenType::Plus,
            TokenType::Semicolon,
            TokenType::Star,
            TokenType::Eof
        ]
    );
}

#[test]
fn newlines_advance_line_counter() {
    let (tokens, _) = scan_source("1\n\n2");
    assert_eq!(tokens[0].line, 1);
    assert_eq!(tokens[1].line, 3);
    assert_eq!(tokens[2].line, 3);
}
