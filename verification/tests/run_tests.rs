use jlox::error::Error;
use jlox::interpreter::Value;
use jlox::run;
use jlox::scanner::ScanDiagnostic;
use jlox::token::{Token, TokenType};

fn run_source(source: &str) -> jlox::RunOutput {
    run(source.chars().collect())
}

#[test]
fn run_happy_path() {
    let out = run_source("\"a\"+\"b\"");
    assert!(out.scan_diagnostics.is_empty());
    assert!(!out.had_error);
    assert!(out.reports.is_empty());
    match out.result {
        Some(Ok(Value::String(s))) => assert_eq!(s, "ab"),
        _ => panic!("expected a string result"),
    }
}

#[test]
fn run_parse_failure_produces_no_result() {
    let out = run_source(";");
    assert!(out.had_error);
    assert_eq!(out.reports.len(), 1);
    assert!(out.result.is_none());
}

#[test]
fn run_reports_scanner_diagnostics() {
    let out = run_source("\"abc");
    assert_eq!(out.scan_diagnostics, vec![ScanDiagnostic::UnterminatedString]);
    assert!(out.result.is_none());
}

#[test]
fn error_sink_records_reports() {
    let mut sink = Error::new();
    assert!(!sink.had_error);
    let token = Token {
        typ: TokenType::Plus,
        lexeme: String::from("+"),
        literal: None,
        line: 3,
    };
    sink.error(token, "boom");
    assert!(sink.had_error);
    assert_eq!(sink.reports.len(), 1);
    assert_eq!(sink.reports[0].line, 3);
    assert!(!sink.reports[0].at_end);
    assert_eq!(sink.reports[0].message, "boom");
}

#[test]
fn error_sink_marks_end_of_input() {
    let mut sink = Error::new();
    let token = Token {
        typ: TokenType::Eof,
        lexeme: String::new(),
        literal: None,
        line: 7,
    };
    sink.error(token, "late");
    assert!(sink.reports[0].at_end);
    assert_eq!(sink.reports[0].line, 7);
}
