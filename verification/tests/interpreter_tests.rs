//! These tests run the verified pipeline end to end, then perform the one
//! step the library leaves to its caller: running the returned arithmetic
//! tree over machine floats.
use jlox::interpreter::{interpret, ArithOp, BoolExpr, CmpOp, NumExpr, RuntimeError, Value};
use jlox::parser::Parser;
use jlox::scanner::Scanner;

fn resolve_num(n: &NumExpr) -> f32 {
    match n {
        NumExpr::Literal(s) => s.parse().expect("the scanner validated the digit span"),
        NumExpr::Negate(m) => -resolve_num(m),
        NumExpr::Arith(op, a, b) => {
            let a = resolve_num(a);
            let b = resolve_num(b);
            match op {
                ArithOp::Add => a + b,
                ArithOp::Sub => a - b,
                ArithOp::Mul => a * b,
                ArithOp::Div => a / b,
            }
        }
    }
}

fn resolve_bool(b: &BoolExpr) -> bool {
    match b {
        BoolExpr::Const(v) => *v,
        BoolExpr::Negate(m) => !resolve_bool(m),
        BoolExpr::Compare(op, a, b) => {
            let a = resolve_num(a);
            let b = resolve_num(b);
            match op {
                CmpOp::Greater => a > b,
                CmpOp::GreaterEqual => a >= b,
                CmpOp::Less => a < b,
                CmpOp::LessEqual => a <= b,
                CmpOp::NotEqual => a != b,
                CmpOp::EqualEqual => a == b,
            }
        }
    }
}

fn evaluate_source(source: &str) -> Result<Value, RuntimeError> {
    let mut scanner = Scanner::new(source.chars().collect());
    scanner.scan();
    assert!(scanner.diagnostics.is_empty());
    let mut parser = Parser::new(scanner.tokens);
    let expr = parser.parse().expect("parse should succeed");
    interpret(expr)
}

fn number_of(source: &str) -> f32 {
    match evaluate_source(source) {
        Ok(Value::Number(n)) => resolve_num(&n),
        _ => panic!("expected a number"),
    }
}

fn bool_of(source: &str) -> bool {
    match evaluate_source(source) {
        Ok(Value::Bool(b)) => resolve_bool(&b),
        _ => panic!("expected a boolean"),
    }
}

#[test]
fn left_associativity_of_minus() {
    assert_eq!(number_of("1-2-3"), -4.0);
}

#[test]
fn precedence_with_grouping() {
    assert_eq!(number_of("(1+2)*3"), 9.0);
}

#[test]
fn precedence_without_grouping() {
    assert_eq!(number_of("1+2*3"), 7.0);
}

#[test]
fn string_concatenation() {
    match evaluate_source("\"a\"+\"b\"") {
        Ok(Value::String(s)) => assert_eq!(s, "ab"),
        _ => panic!("expected a string"),
    }
}

#[test]
fn comparison_stringifies_to_true() {
    let b = bool_of("1<2");
    assert!(b);
    let text = jlox::interpreter::stringify(Value::Bool(BoolExpr::Const(b))).unwrap();
    assert_eq!(text, "true");
}

#[test]
fn comparison_stringifies_to_false() {
    let b = bool_of("2<1");
    assert!(!b);
    let text = jlox::interpreter::stringify(Value::Bool(BoolExpr::Const(b))).unwrap();
    assert_eq!(text, "false");
}

#[test]
fn type_error_number_plus_string() {
    match evaluate_source("1+\"a\"") {
        Err(e) => assert_eq!(e.message, "Failed to map plus"),
        Ok(_) => panic!("1+\"a\" must fail, and nothing may be printed for it"),
    }
}

#[test]
fn type_error_string_plus_number() {
    match evaluate_source("\"a\"+1") {
        Err(e) => assert_eq!(e.message, "Failed to map plus operator"),
        Ok(_) => panic!("\"a\"+1 must fail"),
    }
}

#[test]
fn unary_minus_and_grouping() {
    assert_eq!(number_of("-2+3"), 1.0);
    assert_eq!(number_of("-(2+3)"), -5.0);
}

#[test]
fn not_inverts_comparison() {
    assert!(!bool_of("!(1<2)"));
    assert!(bool_of("!false"));
}

#[test]
fn equality_is_number_only() {
    assert!(bool_of("1==1"));
    assert!(!bool_of("1!=1"));
    match evaluate_source("1==nil") {
        Err(e) => assert_eq!(e.message, "Undefined op"),
        Ok(_) => panic!("equality over non-numbers must fail"),
    }
}

#[test]
fn unary_type_errors() {
    match evaluate_source("-\"a\"") {
        Err(e) => assert_eq!(e.message, "Not a number"),
        Ok(_) => panic!("negating a string must fail"),
    }
    match evaluate_source("!1") {
        Err(e) => assert_eq!(e.message, "Not a boolean"),
        Ok(_) => panic!("inverting a number must fail"),
    }
}

#[test]
fn nested_failure_collapses_to_generic_error() {
    match evaluate_source("1+(1+\"a\")") {
        Err(e) => assert_eq!(e.message, "error"),
        Ok(_) => panic!("a failing operand must fail the whole expression"),
    }
}

#[test]
fn stringify_of_plain_values() {
    assert_eq!(jlox::interpreter::stringify(Value::Nil).unwrap(), "nil");
    match evaluate_source("nil") {
        Ok(v) => assert_eq!(jlox::interpreter::stringify(v).unwrap(), "nil"),
        _ => panic!("nil must evaluate"),
    }
    match evaluate_source("\"pass\"") {
        Ok(v) => assert_eq!(jlox::interpreter::stringify(v).unwrap(), "pass"),
        _ => panic!("a string must evaluate"),
    }
}

#[test]
fn division_follows_float_semantics() {
    let v = number_of("1/0");
    assert!(v.is_infinite() && v > 0.0);
    assert_eq!(number_of("7/2"), 3.5);
}

#[test]
fn fractional_literals() {
    assert_eq!(number_of("12.5*2"), 25.0);
}
