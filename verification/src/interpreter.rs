//! The evaluator: a single tree walk over the expression, with dynamic type
//! checking and operator dispatch, specified exactly by `spec_evaluate`.
//!
//! Machine floating point cannot be reasoned about here, so a numeric result
//! is returned as a `NumExpr`: the exact tree of arithmetic the caller must
//! run over machine floats, with the scanned digit spans at its leaves.
//! Likewise a boolean that depends on a numeric comparison is returned as a
//! `BoolExpr`. Everything the evaluator decides — which operand types are
//! admitted, which failure each mismatch yields, the order errors propagate,
//! string concatenation — is decided and verified here; only the float
//! arithmetic itself is left to the caller.
use vstd::prelude::*;

use crate::parser::{expr_model, ExprModel, Expression};
use crate::token::{Literal, LiteralModel, Token, TokenType};

verus! {

/// The arithmetic the caller must perform over machine floats.
#[derive(Clone, Copy, PartialEq, Eq, Structural, Debug)]
pub enum ArithOp {
    Add,
    Sub,
    Mul,
    Div,
}

/// The comparison the caller must perform over machine floats.
#[derive(Clone, Copy, PartialEq, Eq, Structural, Debug)]
pub enum CmpOp {
    Greater,
    GreaterEqual,
    Less,
    LessEqual,
    NotEqual,
    EqualEqual,
}

/// A numeric result: a literal digit span, a negation, or an arithmetic
/// operation over two numeric results.
pub enum NumExpr {
    Literal(String),
    Negate(Box<NumExpr>),
    Arith(ArithOp, Box<NumExpr>, Box<NumExpr>),
}

/// A boolean result: a known constant, a logical negation, or a comparison
/// of two numeric results.
pub enum BoolExpr {
    Const(bool),
    Negate(Box<BoolExpr>),
    Compare(CmpOp, NumExpr, NumExpr),
}

/// A runtime value: the evaluator's dynamically-typed result.
pub enum Value {
    Bool(BoolExpr),
    Number(NumExpr),
    String(String),
    Nil,
}

/// A runtime failure: one untyped kind carrying a static message.
pub struct RuntimeError {
    pub message: &'static str,
}

/// The mathematical image of a `NumExpr`.
pub ghost enum NumModel {
    Literal(Seq<char>),
    Negate(Box<NumModel>),
    Arith(ArithOp, Box<NumModel>, Box<NumModel>),
}

/// The mathematical image of a `BoolExpr`.
pub ghost enum BoolModel {
    Const(bool),
    Negate(Box<BoolModel>),
    Compare(CmpOp, NumModel, NumModel),
}

/// The mathematical image of a `Value`.
pub ghost enum ValueModel {
    Bool(BoolModel),
    Number(NumModel),
    String(Seq<char>),
    Nil,
}

pub open spec fn num_model(n: NumExpr) -> NumModel
    decreases n,
{
    match n {
        NumExpr::Literal(s) => NumModel::Literal(s@),
        NumExpr::Negate(m) => NumModel::Negate(Box::new(num_model(*m))),
        NumExpr::Arith(op, a, b) => NumModel::Arith(
            op,
            Box::new(num_model(*a)),
            Box::new(num_model(*b)),
        ),
    }
}

pub open spec fn bool_model(b: BoolExpr) -> BoolModel
    decreases b,
{
    match b {
        BoolExpr::Const(v) => BoolModel::Const(v),
        BoolExpr::Negate(m) => BoolModel::Negate(Box::new(bool_model(*m))),
        BoolExpr::Compare(op, a, b) => BoolModel::Compare(op, num_model(a), num_model(b)),
    }
}

pub open spec fn value_model(v: Value) -> ValueModel {
    match v {
        Value::Bool(b) => ValueModel::Bool(bool_model(b)),
        Value::Number(n) => ValueModel::Number(num_model(n)),
        Value::String(s) => ValueModel::String(s@),
        Value::Nil => ValueModel::Nil,
    }
}

/// A literal maps to a value one-to-one.
pub open spec fn spec_literal(l: LiteralModel) -> ValueModel {
    match l {
        LiteralModel::Number(s) => ValueModel::Number(NumModel::Literal(s)),
        LiteralModel::String(s) => ValueModel::String(s),
        LiteralModel::Bool(b) => ValueModel::Bool(BoolModel::Const(b)),
        LiteralModel::Nil => ValueModel::Nil,
    }
}

/// Binary operator dispatch over two already-evaluated operands: arithmetic
/// and every comparison (equality included) demand two numbers; `+` over a
/// string demands a second string and concatenates; anything else is the
/// failure whose message is given here, exactly.
pub open spec fn spec_binary_op(t: TokenType, l: ValueModel, r: ValueModel) -> Result<
    ValueModel,
    Seq<char>,
> {
    if t == TokenType::Minus {
        match (l, r) {
            (ValueModel::Number(a), ValueModel::Number(b)) => Result::Ok(
                ValueModel::Number(NumModel::Arith(ArithOp::Sub, Box::new(a), Box::new(b))),
            ),
            _ => Result::Err("Failed to map minus"@),
        }
    } else if t == TokenType::Slash {
        match (l, r) {
            (ValueModel::Number(a), ValueModel::Number(b)) => Result::Ok(
                ValueModel::Number(NumModel::Arith(ArithOp::Div, Box::new(a), Box::new(b))),
            ),
            _ => Result::Err("Failed to map division"@),
        }
    } else if t == TokenType::Star {
        match (l, r) {
            (ValueModel::Number(a), ValueModel::Number(b)) => Result::Ok(
                ValueModel::Number(NumModel::Arith(ArithOp::Mul, Box::new(a), Box::new(b))),
            ),
            _ => Result::Err("Failed to map multiply"@),
        }
    } else if t == TokenType::Plus {
        match (l, r) {
            (ValueModel::Number(a), ValueModel::Number(b)) => Result::Ok(
                ValueModel::Number(NumModel::Arith(ArithOp::Add, Box::new(a), Box::new(b))),
            ),
            (ValueModel::Number(_), _) => Result::Err("Failed to map plus"@),
            (ValueModel::String(a), ValueModel::String(b)) => Result::Ok(
                ValueModel::String(a + b),
            ),
            _ => Result::Err("Failed to map plus operator"@),
        }
    } else if t == TokenType::Greater {
        spec_compare(CmpOp::Greater, l, r)
    } else if t == TokenType::GreaterEqual {
        spec_compare(CmpOp::GreaterEqual, l, r)
    } else if t == TokenType::Less {
        spec_compare(CmpOp::Less, l, r)
    } else if t == TokenType::LessEqual {
        spec_compare(CmpOp::LessEqual, l, r)
    } else if t == TokenType::NotEqual {
        spec_compare(CmpOp::NotEqual, l, r)
    } else if t == TokenType::EqualEqual {
        spec_compare(CmpOp::EqualEqual, l, r)
    } else {
        Result::Err("Unsupported operator"@)
    }
}

/// Comparisons (equality and ordering alike) are defined over numbers only.
pub open spec fn spec_compare(op: CmpOp, l: ValueModel, r: ValueModel) -> Result<
    ValueModel,
    Seq<char>,
> {
    match (l, r) {
        (ValueModel::Number(a), ValueModel::Number(b)) => Result::Ok(
            ValueModel::Bool(BoolModel::Compare(op, a, b)),
        ),
        _ => Result::Err("Undefined op"@),
    }
}

/// Unary dispatch: `-` demands a number, `!` demands a boolean.
pub open spec fn spec_unary_op(t: TokenType, v: ValueModel) -> Result<ValueModel, Seq<char>> {
    if t == TokenType::Minus {
        match v {
            ValueModel::Number(n) => Result::Ok(ValueModel::Number(NumModel::Negate(Box::new(n)))),
            _ => Result::Err("Not a number"@),
        }
    } else if t == TokenType::Not {
        match v {
            ValueModel::Bool(b) => Result::Ok(ValueModel::Bool(BoolModel::Negate(Box::new(b)))),
            _ => Result::Err("Not a boolean"@),
        }
    } else {
        Result::Err("Unsupported operator"@)
    }
}

/// A binary node evaluates both operands first; if either fails, the whole
/// expression fails (with the generic message), else the operator
/// dispatches.
pub open spec fn spec_binary(lv: Result<ValueModel, Seq<char>>, rv: Result<
    ValueModel,
    Seq<char>,
>, t: TokenType) -> Result<ValueModel, Seq<char>> {
    if lv is Err || rv is Err {
        Result::Err("error"@)
    } else {
        spec_binary_op(t, lv->Ok_0, rv->Ok_0)
    }
}

/// The whole evaluation, one case per node kind.
pub open spec fn spec_evaluate(e: ExprModel) -> Result<ValueModel, Seq<char>>
    decreases e,
{
    match e {
        ExprModel::Binary(l, op, r) => spec_binary(spec_evaluate(*l), spec_evaluate(*r), op.typ),
        ExprModel::Unary(op, r) => {
            let rv = spec_evaluate(*r);
            if rv is Err {
                Result::Err("error"@)
            } else {
                spec_unary_op(op.typ, rv->Ok_0)
            }
        },
        ExprModel::Grouping(g) => spec_evaluate(*g),
        ExprModel::Literal(l) => Result::Ok(spec_literal(l)),
    }
}

/// The rendering the evaluator itself can decide: strings pass through,
/// `nil` and known booleans render to their words. A number, or a boolean
/// that rests on a numeric comparison, has no text until the caller runs
/// the arithmetic, so it renders to nothing here.
pub open spec fn spec_stringify(v: ValueModel) -> Option<Seq<char>> {
    match v {
        ValueModel::String(s) => Some(s),
        ValueModel::Nil => Some("nil"@),
        ValueModel::Bool(BoolModel::Const(b)) => Some(
            if b {
                "true"@
            } else {
                "false"@
            },
        ),
        _ => None,
    }
}

/// How an executable result relates to a specified one: same value (by
/// model) on success, same message on failure.
pub open spec fn eval_matches(r: Result<Value, RuntimeError>, s: Result<
    ValueModel,
    Seq<char>,
>) -> bool {
    match (r, s) {
        (Result::Ok(v), Result::Ok(sv)) => value_model(v) == sv,
        (Result::Err(e), Result::Err(m)) => e.message@ == m,
        _ => false,
    }
}

/// The number of nodes of an expression; the evaluation recursion descends
/// along it.
pub open spec fn expr_size(e: Expression) -> nat
    decreases e,
{
    match e {
        Expression::Binary(l, _, r) => 1 + expr_size(*l) + expr_size(*r),
        Expression::Unary(_, r) => 1 + expr_size(*r),
        Expression::Grouping(g) => 1 + expr_size(*g),
        Expression::Literal(_) => 1,
    }
}

/// Evaluate one expression, exactly as `spec_evaluate` says.
pub fn evaluate(expr: Expression) -> (r: Result<Value, RuntimeError>)
    ensures
        eval_matches(r, spec_evaluate(expr_model(expr))),
    decreases expr_size(expr), 0int,
{
    match expr {
        Expression::Binary(lhs, op, rhs) => {
            proof {
                assert(expr_size(*lhs) >= 1);
                assert(expr_size(*rhs) >= 1);
            }
            binary(*lhs, *rhs, &op.typ)
        },
        Expression::Unary(lexeme, rhs) => {
            proof {
                assert(expr_size(*rhs) >= 1);
            }
            unary(&lexeme, *rhs)
        },
        Expression::Grouping(group) => {
            proof {
                assert(expr_size(*group) >= 1);
            }
            evaluate(*group)
        },
        Expression::Literal(lit) => literal(lit),
    }
}

/// Evaluate both operands, then dispatch the binary operator; exactly
/// `spec_binary`.
pub fn binary(lhs: Expression, rhs: Expression, typ: &TokenType) -> (r: Result<
    Value,
    RuntimeError,
>)
    ensures
        eval_matches(
            r,
            spec_binary(
                spec_evaluate(expr_model(lhs)),
                spec_evaluate(expr_model(rhs)),
                *typ,
            ),
        ),
    decreases expr_size(lhs) + expr_size(rhs), 1int,
{
    proof {
        assert(expr_size(lhs) >= 1);
        assert(expr_size(rhs) >= 1);
    }
    let left = evaluate(lhs);
    let right = evaluate(rhs);
    let (left, right) = match (left, right) {
        (Result::Ok(l), Result::Ok(r)) => (l, r),
        _ => {
            return Result::Err(RuntimeError { message: "error" });
        },
    };
    match typ {
        TokenType::Minus => match (left, right) {
            (Value::Number(a), Value::Number(b)) => Result::Ok(
                Value::Number(NumExpr::Arith(ArithOp::Sub, Box::new(a), Box::new(b))),
            ),
            _ => Result::Err(RuntimeError { message: "Failed to map minus" }),
        },
        TokenType::Slash => match (left, right) {
            (Value::Number(a), Value::Number(b)) => Result::Ok(
                Value::Number(NumExpr::Arith(ArithOp::Div, Box::new(a), Box::new(b))),
            ),
            _ => Result::Err(RuntimeError { message: "Failed to map division" }),
        },
        TokenType::Star => match (left, right) {
            (Value::Number(a), Value::Number(b)) => Result::Ok(
                Value::Number(NumExpr::Arith(ArithOp::Mul, Box::new(a), Box::new(b))),
            ),
            _ => Result::Err(RuntimeError { message: "Failed to map multiply" }),
        },
        TokenType::Plus => match (left, right) {
            (Value::Number(a), Value::Number(b)) => Result::Ok(
                Value::Number(NumExpr::Arith(ArithOp::Add, Box::new(a), Box::new(b))),
            ),
            (Value::Number(_), _) => Result::Err(RuntimeError { message: "Failed to map plus" }),
            (Value::String(a), Value::String(b)) => Result::Ok(
                Value::String(a.concat(b.as_str())),
            ),
            _ => Result::Err(RuntimeError { message: "Failed to map plus operator" }),
        },
        TokenType::Greater => compare(CmpOp::Greater, left, right),
        TokenType::GreaterEqual => compare(CmpOp::GreaterEqual, left, right),
        TokenType::Less => compare(CmpOp::Less, left, right),
        TokenType::LessEqual => compare(CmpOp::LessEqual, left, right),
        TokenType::NotEqual => compare(CmpOp::NotEqual, left, right),
        TokenType::EqualEqual => compare(CmpOp::EqualEqual, left, right),
        _ => Result::Err(RuntimeError { message: "Unsupported operator" }),
    }
}

/// One numeric comparison, `spec_compare` exactly.
fn compare(op: CmpOp, left: Value, right: Value) -> (r: Result<Value, RuntimeError>)
    ensures
        eval_matches(r, spec_compare(op, value_model(left), value_model(right))),
{
    match (left, right) {
        (Value::Number(a), Value::Number(b)) => Result::Ok(
            Value::Bool(BoolExpr::Compare(op, a, b)),
        ),
        _ => Result::Err(RuntimeError { message: "Undefined op" }),
    }
}

/// Evaluate the operand, then dispatch the unary operator.
pub fn unary(lexeme: &Token, rhs: Expression) -> (r: Result<Value, RuntimeError>)
    ensures
        eval_matches(
            r,
            ({
                let rv = spec_evaluate(expr_model(rhs));
                if rv is Err {
                    Result::<ValueModel, Seq<char>>::Err("error"@)
                } else {
                    spec_unary_op(lexeme.typ, rv->Ok_0)
                }
            }),
        ),
    decreases expr_size(rhs), 1int,
{
    let right = match evaluate(rhs) {
        Result::Ok(v) => v,
        Result::Err(_) => {
            return Result::Err(RuntimeError { message: "error" });
        },
    };
    match lexeme.typ {
        TokenType::Minus => match right {
            Value::Number(n) => Result::Ok(Value::Number(NumExpr::Negate(Box::new(n)))),
            _ => Result::Err(RuntimeError { message: "Not a number" }),
        },
        TokenType::Not => match right {
            Value::Bool(b) => Result::Ok(Value::Bool(BoolExpr::Negate(Box::new(b)))),
            _ => Result::Err(RuntimeError { message: "Not a boolean" }),
        },
        _ => Result::Err(RuntimeError { message: "Unsupported operator" }),
    }
}

/// A literal maps to a value one-to-one; this never fails.
pub fn literal(lit: Literal) -> (r: Result<Value, RuntimeError>)
    ensures
        r is Ok,
        eval_matches(r, Result::Ok(spec_literal(lit@))),
{
    match lit {
        Literal::Number(n) => Result::Ok(Value::Number(NumExpr::Literal(n))),
        Literal::String(s) => Result::Ok(Value::String(s)),
        Literal::Bool(b) => Result::Ok(Value::Bool(BoolExpr::Const(b))),
        Literal::Nil => Result::Ok(Value::Nil),
    }
}

/// Render the values whose text the evaluator itself decides; `None` for a
/// value whose text rests on numeric computation the caller must run.
pub fn stringify(obj: Value) -> (r: Option<String>)
    ensures
        match r {
            Some(s) => spec_stringify(value_model(obj)) == Some(s@),
            None => spec_stringify(value_model(obj)) is None,
        },
{
    match obj {
        Value::String(s) => Some(s),
        Value::Nil => Some(String::from_str("nil")),
        Value::Bool(BoolExpr::Const(b)) => {
            if b {
                Some(String::from_str("true"))
            } else {
                Some(String::from_str("false"))
            }
        },
        _ => None,
    }
}

/// The evaluator's entry point: evaluate the expression; printing the
/// rendered result is the caller's task.
pub fn interpret(expr: Expression) -> (r: Result<Value, RuntimeError>)
    ensures
        eval_matches(r, spec_evaluate(expr_model(expr))),
{
    evaluate(expr)
}

} // verus!
