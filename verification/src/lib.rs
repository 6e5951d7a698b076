//! An expression-language front end and evaluator: a scanner from
//! characters to tokens, a recursive-descent parser from tokens to one
//! expression tree, and a tree-walk evaluator from the tree to one
//! dynamically-typed value, each stage verified against a functional
//! specification of the whole pass.
pub mod error;
pub mod interpreter;
pub mod parser;
pub mod scanner;
pub mod token;

use vstd::prelude::*;

use crate::error::Report;
use crate::interpreter::{eval_matches, interpret, spec_evaluate, RuntimeError, Value};
use crate::parser::{spec_expression, wf_tokens, Parser};
use crate::scanner::{
    lemma_scan_literal_payloads, lemma_scan_termination, scan_from, ScanDiagnostic, Scanner,
};

verus! {

/// Everything one whole pass produces: the scanner's own diagnostics, the
/// parser's sink (flag and reports), and the evaluation outcome — `None`
/// when the parse failed, so nothing downstream ran.
pub struct RunOutput {
    pub scan_diagnostics: Vec<ScanDiagnostic>,
    pub had_error: bool,
    pub reports: Vec<Report>,
    pub result: Option<Result<Value, RuntimeError>>,
}

/// One whole pass, end to end: scan the source, parse the tokens, evaluate
/// the tree. Each piece of the output is pinned to the specification of its
/// stage, applied to the stage before it.
pub fn run(source: Vec<char>) -> (out: RunOutput)
    requires
        source@.len() + 1 <= u32::MAX as int,
    ensures
        ({
            let scanned = scan_from(source@, 0, 1);
            let parsed = spec_expression(scanned.toks, 0);
            &&& out.scan_diagnostics@ == scanned.diags
            &&& out.reports.deep_view() == parsed.reports
            &&& out.had_error == (parsed.reports.len() > 0)
            &&& match out.result {
                None => parsed.out is Err,
                Some(r) => parsed.out is Ok && eval_matches(r, spec_evaluate(parsed.out->Ok_0)),
            }
        }),
{
    let mut scanner = Scanner::new(source);
    scanner.scan();
    proof {
        lemma_scan_termination(scanner.source@, 0, 1);
        lemma_scan_literal_payloads(scanner.source@, 0, 1);
        assert(scanner.tokens.deep_view() =~= scan_from(scanner.source@, 0, 1).toks);
        assert(scanner.diagnostics@ =~= scan_from(scanner.source@, 0, 1).diags);
        assert(wf_tokens(scanner.tokens.deep_view()));
    }
    let scan_diagnostics = scanner.diagnostics;
    let mut parser = Parser::new(scanner.tokens);
    let expr = parser.parse();
    proof {
        assert(parser.error.reports.deep_view() =~= spec_expression(
            parser.tokens.deep_view(),
            0,
        ).reports);
    }
    let had_error = parser.error.had_error;
    let reports = parser.error.reports;
    match expr {
        Result::Ok(e) => {
            let r = interpret(e);
            RunOutput { scan_diagnostics, had_error, reports, result: Some(r) }
        },
        Result::Err(_) => RunOutput { scan_diagnostics, had_error, reports, result: None },
    }
}

} // verus!
