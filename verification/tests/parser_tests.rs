use jlox::parser::{Expression, Parser};
use jlox::scanner::Scanner;
use jlox::token::TokenType;

fn parse_source(source: &str) -> (Result<Expression, jlox::parser::ParseError>, Parser) {
    let mut scanner = Scanner::new(source.chars().collect());
    scanner.scan();
    let mut parser = Parser::new(scanner.tokens);
    let result = parser.parse();
    (result, parser)
}

fn printed(source: &str) -> String {
    let (result, _) = parse_source(source);
    Parser::print_ast(&result.expect("parse should succeed"))
}

#[test]
fn left_associative_term_tree() {
    assert_eq!(printed("1-2-3"), "(- (- 1 2) 3)");
}

#[test]
fn factor_binds_tighter_than_term() {
    assert_eq!(printed("1+2*3"), "(+ 1 (* 2 3))");
}

#[test]
fn grouping_overrides_precedence() {
    assert_eq!(printed("(1+2)*3"), "(* (grouping (+ 1 2)) 3)");
}

#[test]
fn comparison_and_equality_levels() {
    assert_eq!(printed("1<2==3>4"), "(== (< 1 2) (> 3 4))");
}

#[test]
fn unary_is_right_recursive() {
    assert_eq!(printed("--1"), "(- (- 1))");
    assert_eq!(printed("!true"), "(! true)");
}

#[test]
fn literal_keywords() {
    assert_eq!(printed("true"), "true");
    assert_eq!(printed("false"), "false");
    assert_eq!(printed("nil"), "nil");
    assert_eq!(printed("\"hi\""), "hi");
}

#[test]
fn expected_expression_failure() {
    let (result, parser) = parse_source("+");
    assert!(result.is_err());
    assert!(parser.error.had_error);
    assert_eq!(parser.error.reports.len(), 1);
    let report = &parser.error.reports[0];
    assert_eq!(report.message, "Expected expression");
    assert_eq!(report.line, 1);
    assert!(!report.at_end);
}

#[test]
fn failure_at_end_of_input() {
    let (result, parser) = parse_source("1+");
    assert!(result.is_err());
    assert!(parser.error.had_error);
    assert_eq!(parser.error.reports.len(), 1);
    let report = &parser.error.reports[0];
    assert_eq!(report.message, "Expected expression");
    assert!(report.at_end);
}

#[test]
fn missing_closing_paren_reported_but_parsed() {
    let (result, parser) = parse_source("(1");
    let expr = result.expect("the lenient grouping rule still returns a tree");
    assert_eq!(Parser::print_ast(&expr), "(grouping 1)");
    assert!(parser.error.had_error);
    assert_eq!(parser.error.reports.len(), 1);
    assert_eq!(parser.error.reports[0].message, "Expect ')' after expression");
    assert!(parser.error.reports[0].at_end);
}

#[test]
fn success_leaves_no_error() {
    let (result, parser) = parse_source("1+2");
    assert!(result.is_ok());
    assert!(!parser.error.had_error);
    assert!(parser.error.reports.is_empty());
}

#[test]
fn cursor_stops_at_end_of_input() {
    let (result, parser) = parse_source("1");
    assert!(result.is_ok());
    assert_eq!(parser.tokens[parser.current].typ, TokenType::Eof);
}
