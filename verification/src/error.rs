//! The diagnostics sink: records a persistent "had error" flag and the
//! reports handed to it, as `(line, at-end?, message)` records. Rendering and
//! printing the recorded reports is left to unverified callers.
use vstd::prelude::*;

use crate::token::{Token, TokenType};

verus! {

/// One recorded diagnostic. `at_end` tells whether the report points at the
/// end-of-input token (rendered `[line N] at end: msg`) or mid-input
/// (rendered `[line N] Error : msg`).
#[derive(Clone, Debug)]
pub struct Report {
    pub line: u32,
    pub at_end: bool,
    pub message: String,
}

/// The mathematical image of a `Report`.
pub ghost struct ReportModel {
    pub line: int,
    pub at_end: bool,
    pub message: Seq<char>,
}

impl View for Report {
    type V = ReportModel;

    open spec fn view(&self) -> ReportModel {
        ReportModel { line: self.line as int, at_end: self.at_end, message: self.message@ }
    }
}

impl DeepView for Report {
    type V = ReportModel;

    open spec fn deep_view(&self) -> ReportModel {
        self.view()
    }
}

/// The diagnostics sink itself: the "had error" flag and every report
/// received so far, oldest first.
pub struct Error {
    pub had_error: bool,
    pub reports: Vec<Report>,
}

impl Error {
    /// A fresh sink: no error seen, nothing recorded.
    pub fn new() -> (e: Error)
        ensures
            !e.had_error,
            e.reports.deep_view().len() == 0,
    {
        Error { had_error: false, reports: Vec::new() }
    }

    /// Receive one diagnostic for `token`: set the flag and record the
    /// report, marked at-end exactly when the token is the end-of-input one.
    pub fn error(&mut self, token: Token, message: &str)
        ensures
            final(self).had_error,
            final(self).reports.deep_view() == old(self).reports.deep_view().push(
                ReportModel {
                    line: token.line as int,
                    at_end: token.typ == TokenType::Eof,
                    message: message@,
                },
            ),
    {
        self.had_error = true;
        if token.typ == TokenType::Eof {
            self.report_eof(token.line, message);
        } else {
            self.report_error(token.line, message);
        }
    }

    fn report_error(&mut self, line: u32, message: &str)
        ensures
            final(self).had_error == old(self).had_error,
            final(self).reports.deep_view() == old(self).reports.deep_view().push(
                ReportModel { line: line as int, at_end: false, message: message@ },
            ),
    {
        self.reports.push(Report { line, at_end: false, message: message.to_owned() });
    }

    fn report_eof(&mut self, line: u32, message: &str)
        ensures
            final(self).had_error == old(self).had_error,
            final(self).reports.deep_view() == old(self).reports.deep_view().push(
                ReportModel { line: line as int, at_end: true, message: message@ },
            ),
    {
        self.reports.push(Report { line, at_end: true, message: message.to_owned() });
    }
}

impl Default for Error {
    fn default() -> (e: Self)
        ensures
            !e.had_error,
            e.reports.deep_view().len() == 0,
    {
        Error::new()
    }
}

} // verus!
