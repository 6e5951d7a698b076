//! The parser: a six-level precedence-climbing recursive descent over the
//! token sequence, building one expression tree.
//!
//! The grammar is specified by the mutually recursive spec functions
//! `spec_expression`, `spec_level` (the four left-associative binary levels),
//! `spec_unary` and `spec_primary`; each `Parser` method is proved to return
//! exactly what its spec level says, to leave the cursor exactly where the
//! spec level says, and to hand the diagnostics sink exactly the reports the
//! spec level says.
use vstd::prelude::*;

use crate::error::{Error, ReportModel};
use crate::token::{Literal, LiteralModel, Token, TokenModel, TokenType};

verus! {

/// The parse failure returned when no grammar rule matches; the report
/// itself goes through the diagnostics sink.
#[derive(Debug)]
pub struct ParseError;

/// One node of the expression tree. A binary or unary node keeps the very
/// operator token it was built from.
pub enum Expression {
    Binary(Box<Expression>, Token, Box<Expression>),
    Unary(Token, Box<Expression>),
    Literal(Literal),
    Grouping(Box<Expression>),
}

/// The mathematical image of an `Expression`.
pub ghost enum ExprModel {
    Binary(Box<ExprModel>, TokenModel, Box<ExprModel>),
    Unary(TokenModel, Box<ExprModel>),
    Literal(LiteralModel),
    Grouping(Box<ExprModel>),
}

pub open spec fn expr_model(e: Expression) -> ExprModel
    decreases e,
{
    match e {
        Expression::Binary(l, op, r) => ExprModel::Binary(
            Box::new(expr_model(*l)),
            op@,
            Box::new(expr_model(*r)),
        ),
        Expression::Unary(op, r) => ExprModel::Unary(op@, Box::new(expr_model(*r))),
        Expression::Literal(l) => ExprModel::Literal(l@),
        Expression::Grouping(e) => ExprModel::Grouping(Box::new(expr_model(*e))),
    }
}

impl View for Expression {
    type V = ExprModel;

    open spec fn view(&self) -> ExprModel {
        expr_model(*self)
    }
}

impl DeepView for Expression {
    type V = ExprModel;

    open spec fn deep_view(&self) -> ExprModel {
        self.view()
    }
}

/// What the parser requires of its input: the sequence ends with exactly one
/// end-of-input token, and literal-category tokens carry their payload.
/// `Scanner::scan` produces exactly such sequences.
pub open spec fn wf_tokens(toks: Seq<TokenModel>) -> bool {
    &&& toks.len() >= 1
    &&& toks.last().typ == TokenType::Eof
    &&& forall|k: int| 0 <= k < toks.len() - 1 ==> (#[trigger] toks[k]).typ != TokenType::Eof
    &&& forall|k: int|
        0 <= k < toks.len() && ((#[trigger] toks[k]).typ == TokenType::Number || toks[k].typ
            == TokenType::String) ==> toks[k].literal is Some
}

/// The report the parser files for a failure at `tok`.
pub open spec fn report_of(tok: TokenModel, msg: Seq<char>) -> ReportModel {
    ReportModel { line: tok.line, at_end: tok.typ == TokenType::Eof, message: msg }
}

/// The outcome of one grammar level: the parsed tree or a failure, the
/// cursor afterwards, and the reports filed, oldest first.
pub ghost struct PStep {
    pub out: Result<ExprModel, ()>,
    pub pos: int,
    pub reports: Seq<ReportModel>,
}

/// Which operator tokens each left-associative binary level folds over:
/// level 4 equality, 3 comparison, 2 term, 1 factor.
pub open spec fn level_ops(level: int, t: TokenType) -> bool {
    if level == 4 {
        t == TokenType::NotEqual || t == TokenType::EqualEqual
    } else if level == 3 {
        t == TokenType::Greater || t == TokenType::GreaterEqual || t == TokenType::Less || t
            == TokenType::LessEqual
    } else if level == 2 {
        t == TokenType::Minus || t == TokenType::Plus
    } else if level == 1 {
        t == TokenType::Slash || t == TokenType::Star
    } else {
        false
    }
}

/// An expression is the lowest-precedence binary level.
pub open spec fn spec_expression(toks: Seq<TokenModel>, pos: int) -> PStep
    decreases toks.len() - pos, 12int,
    when 0 <= pos < toks.len()
{
    spec_level(toks, pos, 4)
}

/// One left-associative binary level: parse one operand a level tighter,
/// then fold further operands from `spec_level_tail`.
pub open spec fn spec_level(toks: Seq<TokenModel>, pos: int, level: int) -> PStep
    decreases toks.len() - pos, 2 + 2 * level,
    when 0 <= pos < toks.len() && 0 <= level <= 4
{
    if level == 0 {
        spec_unary(toks, pos)
    } else {
        let first = spec_level(toks, pos, level - 1);
        if first.out is Err {
            first
        } else {
            if pos < first.pos < toks.len() {
                spec_level_tail(toks, first.out.unwrap(), first.pos, level, first.reports)
            } else {
                first
            }
        }
    }
}

/// The fold of one binary level: while the current token is one of the
/// level's operators, consume it, parse one more operand a level tighter,
/// and wrap the accumulated tree in a `Binary` node — so the tree leans
/// strictly left.
pub open spec fn spec_level_tail(
    toks: Seq<TokenModel>,
    acc: ExprModel,
    pos: int,
    level: int,
    reports: Seq<ReportModel>,
) -> PStep
    decreases toks.len() - pos, 3 + 2 * level,
    when 0 <= pos < toks.len() && 1 <= level <= 4
{
    let t = toks[pos];
    if level_ops(level, t.typ) && t.typ != TokenType::Eof && pos + 1 < toks.len() {
        let r = spec_level(toks, pos + 1, level - 1);
        if r.out is Err {
            PStep { out: Result::Err(()), pos: r.pos, reports: reports + r.reports }
        } else {
            let acc2 = ExprModel::Binary(Box::new(acc), t, Box::new(r.out.unwrap()));
            if pos < r.pos < toks.len() {
                spec_level_tail(toks, acc2, r.pos, level, reports + r.reports)
            } else {
                PStep { out: Result::Ok(acc2), pos: r.pos, reports: reports + r.reports }
            }
        }
    } else {
        PStep { out: Result::Ok(acc), pos, reports }
    }
}

/// A unary expression: prefix `!` or `-` applied to another unary
/// expression, or a primary one.
pub open spec fn spec_unary(toks: Seq<TokenModel>, pos: int) -> PStep
    decreases toks.len() - pos, 1int,
    when 0 <= pos < toks.len()
{
    let t = toks[pos];
    if (t.typ == TokenType::Not || t.typ == TokenType::Minus) && pos + 1 < toks.len() {
        let r = spec_unary(toks, pos + 1);
        if r.out is Err {
            r
        } else {
            PStep {
                out: Result::Ok(ExprModel::Unary(t, Box::new(r.out.unwrap()))),
                pos: r.pos,
                reports: r.reports,
            }
        }
    } else {
        spec_primary(toks, pos)
    }
}

/// A primary expression: a literal keyword, a number or string literal
/// (its payload copied from the token), or a parenthesized expression. A
/// missing closing parenthesis is reported but the grouping is kept; any
/// other token is a failure reported at that token.
pub open spec fn spec_primary(toks: Seq<TokenModel>, pos: int) -> PStep
    decreases toks.len() - pos, 0int,
    when 0 <= pos < toks.len()
{
    let t = toks[pos];
    if t.typ == TokenType::False {
        PStep {
            out: Result::Ok(ExprModel::Literal(LiteralModel::Bool(false))),
            pos: pos + 1,
            reports: Seq::<ReportModel>::empty(),
        }
    } else if t.typ == TokenType::True {
        PStep {
            out: Result::Ok(ExprModel::Literal(LiteralModel::Bool(true))),
            pos: pos + 1,
            reports: Seq::<ReportModel>::empty(),
        }
    } else if t.typ == TokenType::Nil {
        PStep {
            out: Result::Ok(ExprModel::Literal(LiteralModel::Nil)),
            pos: pos + 1,
            reports: Seq::<ReportModel>::empty(),
        }
    } else if t.typ == TokenType::Number || t.typ == TokenType::String {
        PStep {
            out: Result::Ok(
                ExprModel::Literal(
                    match t.literal {
                        Some(l) => l,
                        None => LiteralModel::Nil,
                    },
                ),
            ),
            pos: pos + 1,
            reports: Seq::<ReportModel>::empty(),
        }
    } else if t.typ == TokenType::LeftParenthesis && pos + 1 < toks.len() {
        let inner = spec_expression(toks, pos + 1);
        if inner.out is Err {
            inner
        } else {
            if toks[inner.pos].typ == TokenType::RightParenthesis && inner.pos + 1 < toks.len() {
                PStep {
                    out: Result::Ok(ExprModel::Grouping(Box::new(inner.out.unwrap()))),
                    pos: inner.pos + 1,
                    reports: inner.reports,
                }
            } else {
                PStep {
                    out: Result::Ok(ExprModel::Grouping(Box::new(inner.out.unwrap()))),
                    pos: inner.pos,
                    reports: inner.reports.push(
                        report_of(toks[inner.pos], "Expect ')' after expression"@),
                    ),
                }
            }
        }
    } else {
        PStep {
            out: Result::Err(()),
            pos,
            reports: seq![report_of(t, "Expected expression"@)],
        }
    }
}


/// Two sequence bookkeeping facts the parser proofs use: a sequence is its
/// prefix plus its suffix, and dropping a prefix distributes over
/// concatenation.
pub proof fn lemma_seq_parts<A>(s: Seq<A>, n: int)
    requires
        0 <= n <= s.len(),
    ensures
        s.take(n) + s.skip(n) == s,
{
    assert(s.take(n) + s.skip(n) =~= s);
}

pub proof fn lemma_skip_concat<A>(a: Seq<A>, b: Seq<A>, n: int)
    requires
        0 <= n <= a.len(),
    ensures
        (a + b).skip(n) == a.skip(n) + b,
        (a + b).take(n) == a.take(n),
{
    assert((a + b).skip(n) =~= a.skip(n) + b);
    assert((a + b).take(n) =~= a.take(n));
}

fn copy_literal(l: &Literal) -> (r: Literal)
    ensures
        r == *l,
{
    match l {
        Literal::Number(s) => Literal::Number(s.clone()),
        Literal::String(s) => Literal::String(s.clone()),
        Literal::Bool(b) => Literal::Bool(*b),
        Literal::Nil => Literal::Nil,
    }
}

fn copy_token(t: &Token) -> (r: Token)
    ensures
        r == *t,
{
    let literal = match &t.literal {
        Option::Some(l) => Option::Some(copy_literal(l)),
        Option::None => Option::None,
    };
    Token { typ: t.typ, lexeme: t.lexeme.clone(), literal, line: t.line }
}

/// The parser: the token sequence, a monotonic cursor over it, and the
/// diagnostics sink its failures are reported to.
pub struct Parser {
    pub tokens: Vec<Token>,
    pub current: usize,
    pub error: Error,
}

/// What every grammar level guarantees: the tokens are untouched, the cursor
/// lands where the level's spec says (never moving backwards, never past the
/// end-of-input token), the sink receives exactly the level's reports, and
/// the result is exactly the level's tree or failure.
pub open spec fn level_post(
    pre: Parser,
    post: Parser,
    r: Result<Expression, ParseError>,
    st: PStep,
) -> bool {
    &&& post.tokens == pre.tokens
    &&& post.current as int == st.pos
    &&& pre.current <= post.current < pre.tokens.deep_view().len()
    &&& post.error.had_error == (pre.error.had_error || st.reports.len() > 0)
    &&& post.error.reports.deep_view() == pre.error.reports.deep_view() + st.reports
    &&& (match r {
        Result::Ok(e) => st.out is Ok && e@ == st.out.unwrap() && pre.current < post.current,
        Result::Err(_) => st.out is Err,
    })
}

impl Parser {
    /// The parser's token sequence, as a mathematical value.
    pub open spec fn toks(&self) -> Seq<TokenModel> {
        self.tokens.deep_view()
    }

    /// The parser's invariant: well-formed tokens, cursor at most at the
    /// end-of-input token.
    pub open spec fn wf(&self) -> bool {
        &&& wf_tokens(self.toks())
        &&& self.current < self.toks().len()
    }

    /// A parser at the start of `tokens`, with a fresh diagnostics sink.
    pub fn new(tokens: Vec<Token>) -> (p: Parser)
        requires
            wf_tokens(tokens.deep_view()),
        ensures
            p.wf(),
            p.tokens == tokens,
            p.current == 0,
            !p.error.had_error,
            p.error.reports.deep_view() == Seq::<ReportModel>::empty(),
    {
        let p = Parser { tokens, current: 0, error: Error::new() };
        proof {
            assert(p.error.reports.deep_view() =~= Seq::<ReportModel>::empty());
        }
        p
    }

    fn peek(&self) -> (t: &Token)
        requires
            self.current < self.toks().len(),
        ensures
            *t == self.tokens@[self.current as int],
    {
        &self.tokens[self.current]
    }

    fn is_at_end(&self) -> (r: bool)
        requires
            self.current < self.toks().len(),
        ensures
            r == (self.toks()[self.current as int].typ == TokenType::Eof),
    {
        self.peek().typ == TokenType::Eof
    }

    fn check_token(&self, typ: &TokenType) -> (r: bool)
        requires
            self.current < self.toks().len(),
        ensures
            r == (self.toks()[self.current as int].typ == *typ && self.toks()[self.current
                as int].typ != TokenType::Eof),
    {
        if self.is_at_end() {
            return false;
        }
        self.peek().typ == *typ
    }

    fn previous(&self) -> (t: Token)
        requires
            1 <= self.current < self.toks().len(),
        ensures
            t == self.tokens@[self.current - 1],
    {
        copy_token(&self.tokens[self.current - 1])
    }

    fn advance(&mut self) -> (t: Token)
        requires
            old(self).wf(),
            old(self).toks()[old(self).current as int].typ != TokenType::Eof,
        ensures
            final(self).wf(),
            final(self).tokens == old(self).tokens,
            final(self).error == old(self).error,
            final(self).current == old(self).current + 1,
            t == old(self).tokens@[old(self).current as int],
    {
        let n = self.tokens.len();
        if !self.is_at_end() {
            assert(self.current < n);
            self.current = self.current + 1;
        }
        self.previous()
    }

    /// Whether the current token is one of `token_types` (never the
    /// end-of-input token), without consuming it.
    fn check_any(&self, token_types: &Vec<TokenType>) -> (r: bool)
        requires
            self.current < self.toks().len(),
        ensures
            r == (token_types@.contains(self.toks()[self.current as int].typ) && self.toks()[
                self.current as int].typ != TokenType::Eof),
    {
        let mut i: usize = 0;
        let mut matched = false;
        while i < token_types.len()
            invariant
                self.current < self.toks().len(),
                0 <= i <= token_types@.len(),
                matched == (exists|j: int|
                    0 <= j < i && self.toks()[self.current as int].typ == token_types@[j]
                        && self.toks()[self.current as int].typ != TokenType::Eof),
            decreases token_types@.len() - i,
        {
            if self.check_token(&token_types[i]) {
                matched = true;
            }
            i = i + 1;
        }
        matched
    }

    /// If the current token is one of `token_types`, consume it.
    fn match_token(&mut self, token_types: &Vec<TokenType>) -> (r: bool)
        requires
            old(self).wf(),
        ensures
            final(self).wf(),
            final(self).tokens == old(self).tokens,
            final(self).error == old(self).error,
            r == (token_types@.contains(old(self).toks()[old(self).current as int].typ) && old(
                self,
            ).toks()[old(self).current as int].typ != TokenType::Eof),
            final(self).current as int == if r {
                old(self).current + 1
            } else {
                old(self).current as int
            },
    {
        let matched = self.check_any(token_types);
        if matched {
            let _ = self.advance();
        }
        matched
    }

    fn report_error(&mut self, token: Token, message: &str) -> (p: ParseError)
        ensures
            final(self).tokens == old(self).tokens,
            final(self).current == old(self).current,
            final(self).error.had_error,
            final(self).error.reports.deep_view() == old(self).error.reports.deep_view().push(
                ReportModel {
                    line: token.line as int,
                    at_end: token.typ == TokenType::Eof,
                    message: message@,
                },
            ),
    {
        self.error.error(token, message);
        ParseError
    }

    /// Consume the expected token, or report `message` at the current token
    /// and return the failure without consuming anything.
    fn consume(&mut self, typ: TokenType, message: &str) -> (r: Result<Token, ParseError>)
        requires
            old(self).wf(),
        ensures
            final(self).wf(),
            final(self).tokens == old(self).tokens,
            ({
                let t = old(self).toks()[old(self).current as int];
                if t.typ == typ && t.typ != TokenType::Eof {
                    &&& r is Ok
                    &&& final(self).current == old(self).current + 1
                    &&& final(self).error == old(self).error
                } else {
                    &&& r is Err
                    &&& final(self).current == old(self).current
                    &&& final(self).error.had_error
                    &&& final(self).error.reports.deep_view() == old(
                        self,
                    ).error.reports.deep_view().push(report_of(t, message@))
                }
            }),
    {
        if self.check_token(&typ) {
            return Ok(self.advance());
        }
        let token = copy_token(self.peek());
        Err(self.report_error(token, message))
    }
}


impl Parser {
    /// A unary expression: prefix `!` or `-` applied recursively, else a
    /// primary expression; exactly `spec_unary`.
    fn unary(&mut self) -> (r: Result<Expression, ParseError>)
        requires
            old(self).wf(),
        ensures
            final(self).wf(),
            level_post(
                *old(self),
                *final(self),
                r,
                spec_unary(old(self).toks(), old(self).current as int),
            ),
        decreases old(self).toks().len() - old(self).current, 1int,
    {
        let ghost pre = *old(self);
        let ops = vec![TokenType::Not, TokenType::Minus];
        if self.match_token(&ops) {
            let op = self.previous();
            let right = match self.unary() {
                Result::Ok(e) => e,
                Result::Err(p) => {
                    return Result::Err(p);
                },
            };
            return Result::Ok(Expression::Unary(op, Box::new(right)));
        }
        self.primary()
    }

    /// A primary expression: literal keywords, number and string literals,
    /// or a parenthesized expression; exactly `spec_primary`.
    fn primary(&mut self) -> (r: Result<Expression, ParseError>)
        requires
            old(self).wf(),
        ensures
            final(self).wf(),
            level_post(
                *old(self),
                *final(self),
                r,
                spec_primary(old(self).toks(), old(self).current as int),
            ),
        decreases old(self).toks().len() - old(self).current, 0int,
    {
        let ghost pre = *old(self);
        let false_kw = vec![TokenType::False];
        if self.match_token(&false_kw) {
            proof {
                lemma_concat_empty(pre.error.reports.deep_view());
            }
            return Result::Ok(Expression::Literal(Literal::Bool(false)));
        }
        let true_kw = vec![TokenType::True];
        if self.match_token(&true_kw) {
            proof {
                lemma_concat_empty(pre.error.reports.deep_view());
            }
            return Result::Ok(Expression::Literal(Literal::Bool(true)));
        }
        let nil_kw = vec![TokenType::Nil];
        if self.match_token(&nil_kw) {
            proof {
                lemma_concat_empty(pre.error.reports.deep_view());
            }
            return Result::Ok(Expression::Literal(Literal::Nil));
        }
        let literal_kinds = vec![TokenType::Number, TokenType::String];
        if self.match_token(&literal_kinds) {
            proof {
                lemma_concat_empty(pre.error.reports.deep_view());
            }
            let prev = self.previous();
            match prev.literal {
                Option::Some(l) => {
                    return Result::Ok(Expression::Literal(l));
                },
                Option::None => {
                    return Result::Ok(Expression::Literal(Literal::Nil));
                },
            }
        }
        let left_paren = vec![TokenType::LeftParenthesis];
        if self.match_token(&left_paren) {
            let ghost inner_spec = spec_expression(pre.toks(), pre.current + 1);
            let expr = match self.expression() {
                Result::Ok(e) => e,
                Result::Err(p) => {
                    return Result::Err(p);
                },
            };
            let ghost mid = *self;
            let _ = self.consume(TokenType::RightParenthesis, "Expect ')' after expression");
            proof {
                if !(mid.toks()[mid.current as int].typ == TokenType::RightParenthesis
                    && mid.toks()[mid.current as int].typ != TokenType::Eof) {
                    assert(pre.error.reports.deep_view() + inner_spec.reports.push(
                        report_of(
                            pre.toks()[mid.current as int],
                            "Expect ')' after expression"@,
                        ),
                    ) =~= (pre.error.reports.deep_view() + inner_spec.reports).push(
                        report_of(
                            pre.toks()[mid.current as int],
                            "Expect ')' after expression"@,
                        ),
                    ));
                }
            }
            return Result::Ok(Expression::Grouping(Box::new(expr)));
        }
        let token = copy_token(self.peek());
        let p = self.report_error(token, "Expected expression");
        proof {
            assert(pre.error.reports.deep_view() + seq![
                report_of(pre.toks()[pre.current as int], "Expected expression"@),
            ] =~= pre.error.reports.deep_view().push(
                report_of(pre.toks()[pre.current as int], "Expected expression"@),
            ));
        }
        Result::Err(p)
    }
}

/// Concatenating the empty sequence on the right changes nothing.
pub proof fn lemma_concat_empty<A>(s: Seq<A>)
    ensures
        s + Seq::<A>::empty() == s,
{
    assert(s + Seq::<A>::empty() =~= s);
}


impl Parser {
    /// The equality level: folds `!=` and `==` left-associatively over comparisons.
    pub fn equality(&mut self) -> (r: Result<Expression, ParseError>)
        requires
            old(self).wf(),
        ensures
            final(self).wf(),
            level_post(
                *old(self),
                *final(self),
                r,
                spec_level(old(self).toks(), old(self).current as int, 4),
            ),
        decreases old(self).toks().len() - old(self).current, 10int,
    {
        let ghost pre = *old(self);
        let ghost toks = pre.toks();
        let ghost c0 = pre.current as int;
        let ghost n0 = pre.error.reports.deep_view().len() as int;
        let ghost target = spec_level(toks, c0, 4);
        let mut expr = match self.comparison() {
            Result::Ok(e) => e,
            Result::Err(p) => {
                return Result::Err(p);
            },
        };
        proof {
            let first = spec_level(toks, c0, 4 - 1);
            lemma_skip_concat(pre.error.reports.deep_view(), first.reports, n0);
            assert(pre.error.reports.deep_view().skip(n0) =~= Seq::<ReportModel>::empty());
            assert(Seq::<ReportModel>::empty() + first.reports =~= first.reports);
        }
        let ops = vec![TokenType::NotEqual, TokenType::EqualEqual];
        while self.check_any(&ops)
            invariant
                pre == *old(self),
                self.wf(),
                self.tokens == pre.tokens,
                toks == pre.toks(),
                c0 == pre.current as int,
                n0 == pre.error.reports.deep_view().len() as int,
                target == spec_level(toks, c0, 4),
                ops@ == seq![TokenType::NotEqual, TokenType::EqualEqual],
                (c0 < self.current as int) && ((self.current as int) < toks.len()),
                n0 <= self.error.reports.deep_view().len(),
                pre.error.reports.deep_view() == self.error.reports.deep_view().take(n0),
                self.error.had_error == (pre.error.had_error
                    || self.error.reports.deep_view().len() > n0),
                target == spec_level_tail(
                    toks,
                    expr@,
                    self.current as int,
                    4,
                    self.error.reports.deep_view().skip(n0),
                ),
            decreases toks.len() - self.current,
        {
            let ghost loop_pre = *self;
            let ghost delta = loop_pre.error.reports.deep_view().skip(n0);
            let op = self.advance();
            let ghost rr = spec_level(toks, loop_pre.current + 1, 4 - 1);
            let right = match self.comparison() {
                Result::Ok(e) => e,
                Result::Err(p) => {
                    proof {
                        lemma_skip_concat(loop_pre.error.reports.deep_view(), rr.reports, n0);
                        lemma_seq_parts(loop_pre.error.reports.deep_view(), n0);
                        assert(pre.error.reports.deep_view() + (delta + rr.reports)
                            =~= (pre.error.reports.deep_view() + delta) + rr.reports);
                    }
                    return Result::Err(p);
                },
            };
            proof {
                lemma_skip_concat(loop_pre.error.reports.deep_view(), rr.reports, n0);
            }
            expr = Expression::Binary(Box::new(expr), op, Box::new(right));
        }
        proof {
            lemma_seq_parts(self.error.reports.deep_view(), n0);
        }
        Result::Ok(expr)
    }

    /// The comparison level: folds `>`, `>=`, `<`, `<=` left-associatively over terms.
    pub fn comparison(&mut self) -> (r: Result<Expression, ParseError>)
        requires
            old(self).wf(),
        ensures
            final(self).wf(),
            level_post(
                *old(self),
                *final(self),
                r,
                spec_level(old(self).toks(), old(self).current as int, 3),
            ),
        decreases old(self).toks().len() - old(self).current, 8int,
    {
        let ghost pre = *old(self);
        let ghost toks = pre.toks();
        let ghost c0 = pre.current as int;
        let ghost n0 = pre.error.reports.deep_view().len() as int;
        let ghost target = spec_level(toks, c0, 3);
        let mut expr = match self.term() {
            Result::Ok(e) => e,
            Result::Err(p) => {
                return Result::Err(p);
            },
        };
        proof {
            let first = spec_level(toks, c0, 3 - 1);
            lemma_skip_concat(pre.error.reports.deep_view(), first.reports, n0);
            assert(pre.error.reports.deep_view().skip(n0) =~= Seq::<ReportModel>::empty());
            assert(Seq::<ReportModel>::empty() + first.reports =~= first.reports);
        }
        let ops = vec![TokenType::Greater, TokenType::GreaterEqual, TokenType::Less, TokenType::LessEqual];
        while self.check_any(&ops)
            invariant
                pre == *old(self),
                self.wf(),
                self.tokens == pre.tokens,
                toks == pre.toks(),
                c0 == pre.current as int,
                n0 == pre.error.reports.deep_view().len() as int,
                target == spec_level(toks, c0, 3),
                ops@ == seq![TokenType::Greater, TokenType::GreaterEqual, TokenType::Less, TokenType::LessEqual],
                (c0 < self.current as int) && ((self.current as int) < toks.len()),
                n0 <= self.error.reports.deep_view().len(),
                pre.error.reports.deep_view() == self.error.reports.deep_view().take(n0),
                self.error.had_error == (pre.error.had_error
                    || self.error.reports.deep_view().len() > n0),
                target == spec_level_tail(
                    toks,
                    expr@,
                    self.current as int,
                    3,
                    self.error.reports.deep_view().skip(n0),
                ),
            decreases toks.len() - self.current,
        {
            let ghost loop_pre = *self;
            let ghost delta = loop_pre.error.reports.deep_view().skip(n0);
            let op = self.advance();
            let ghost rr = spec_level(toks, loop_pre.current + 1, 3 - 1);
            let right = match self.term() {
                Result::Ok(e) => e,
                Result::Err(p) => {
                    proof {
                        lemma_skip_concat(loop_pre.error.reports.deep_view(), rr.reports, n0);
                        lemma_seq_parts(loop_pre.error.reports.deep_view(), n0);
                        assert(pre.error.reports.deep_view() + (delta + rr.reports)
                            =~= (pre.error.reports.deep_view() + delta) + rr.reports);
                    }
                    return Result::Err(p);
                },
            };
            proof {
                lemma_skip_concat(loop_pre.error.reports.deep_view(), rr.reports, n0);
            }
            expr = Expression::Binary(Box::new(expr), op, Box::new(right));
        }
        proof {
            lemma_seq_parts(self.error.reports.deep_view(), n0);
        }
        Result::Ok(expr)
    }

    /// The term level: folds `-` and `+` left-associatively over factors.
    fn term(&mut self) -> (r: Result<Expression, ParseError>)
        requires
            old(self).wf(),
        ensures
            final(self).wf(),
            level_post(
                *old(self),
                *final(self),
                r,
                spec_level(old(self).toks(), old(self).current as int, 2),
            ),
        decreases old(self).toks().len() - old(self).current, 6int,
    {
        let ghost pre = *old(self);
        let ghost toks = pre.toks();
        let ghost c0 = pre.current as int;
        let ghost n0 = pre.error.reports.deep_view().len() as int;
        let ghost target = spec_level(toks, c0, 2);
        let mut expr = match self.factor() {
            Result::Ok(e) => e,
            Result::Err(p) => {
                return Result::Err(p);
            },
        };
        proof {
            let first = spec_level(toks, c0, 2 - 1);
            lemma_skip_concat(pre.error.reports.deep_view(), first.reports, n0);
            assert(pre.error.reports.deep_view().skip(n0) =~= Seq::<ReportModel>::empty());
            assert(Seq::<ReportModel>::empty() + first.reports =~= first.reports);
        }
        let ops = vec![TokenType::Minus, TokenType::Plus];
        while self.check_any(&ops)
            invariant
                pre == *old(self),
                self.wf(),
                self.tokens == pre.tokens,
                toks == pre.toks(),
                c0 == pre.current as int,
                n0 == pre.error.reports.deep_view().len() as int,
                target == spec_level(toks, c0, 2),
                ops@ == seq![TokenType::Minus, TokenType::Plus],
                (c0 < self.current as int) && ((self.current as int) < toks.len()),
                n0 <= self.error.reports.deep_view().len(),
                pre.error.reports.deep_view() == self.error.reports.deep_view().take(n0),
                self.error.had_error == (pre.error.had_error
                    || self.error.reports.deep_view().len() > n0),
                target == spec_level_tail(
                    toks,
                    expr@,
                    self.current as int,
                    2,
                    self.error.reports.deep_view().skip(n0),
                ),
            decreases toks.len() - self.current,
        {
            let ghost loop_pre = *self;
            let ghost delta = loop_pre.error.reports.deep_view().skip(n0);
            let op = self.advance();
            let ghost rr = spec_level(toks, loop_pre.current + 1, 2 - 1);
            let right = match self.factor() {
                Result::Ok(e) => e,
                Result::Err(p) => {
                    proof {
                        lemma_skip_concat(loop_pre.error.reports.deep_view(), rr.reports, n0);
                        lemma_seq_parts(loop_pre.error.reports.deep_view(), n0);
                        assert(pre.error.reports.deep_view() + (delta + rr.reports)
                            =~= (pre.error.reports.deep_view() + delta) + rr.reports);
                    }
                    return Result::Err(p);
                },
            };
            proof {
                lemma_skip_concat(loop_pre.error.reports.deep_view(), rr.reports, n0);
            }
            expr = Expression::Binary(Box::new(expr), op, Box::new(right));
        }
        proof {
            lemma_seq_parts(self.error.reports.deep_view(), n0);
        }
        Result::Ok(expr)
    }

    /// The factor level: folds `/` and `*` left-associatively over unary expressions.
    fn factor(&mut self) -> (r: Result<Expression, ParseError>)
        requires
            old(self).wf(),
        ensures
            final(self).wf(),
            level_post(
                *old(self),
                *final(self),
                r,
                spec_level(old(self).toks(), old(self).current as int, 1),
            ),
        decreases old(self).toks().len() - old(self).current, 4int,
    {
        let ghost pre = *old(self);
        let ghost toks = pre.toks();
        let ghost c0 = pre.current as int;
        let ghost n0 = pre.error.reports.deep_view().len() as int;
        let ghost target = spec_level(toks, c0, 1);
        let mut expr = match self.unary() {
            Result::Ok(e) => e,
            Result::Err(p) => {
                return Result::Err(p);
            },
        };
        proof {
            let first = spec_level(toks, c0, 1 - 1);
            lemma_skip_concat(pre.error.reports.deep_view(), first.reports, n0);
            assert(pre.error.reports.deep_view().skip(n0) =~= Seq::<ReportModel>::empty());
            assert(Seq::<ReportModel>::empty() + first.reports =~= first.reports);
        }
        let ops = vec![TokenType::Slash, TokenType::Star];
        while self.check_any(&ops)
            invariant
                pre == *old(self),
                self.wf(),
                self.tokens == pre.tokens,
                toks == pre.toks(),
                c0 == pre.current as int,
                n0 == pre.error.reports.deep_view().len() as int,
                target == spec_level(toks, c0, 1),
                ops@ == seq![TokenType::Slash, TokenType::Star],
                (c0 < self.current as int) && ((self.current as int) < toks.len()),
                n0 <= self.error.reports.deep_view().len(),
                pre.error.reports.deep_view() == self.error.reports.deep_view().take(n0),
                self.error.had_error == (pre.error.had_error
                    || self.error.reports.deep_view().len() > n0),
                target == spec_level_tail(
                    toks,
                    expr@,
                    self.current as int,
                    1,
                    self.error.reports.deep_view().skip(n0),
                ),
            decreases toks.len() - self.current,
        {
            let ghost loop_pre = *self;
            let ghost delta = loop_pre.error.reports.deep_view().skip(n0);
            let op = self.advance();
            let ghost rr = spec_level(toks, loop_pre.current + 1, 1 - 1);
            let right = match self.unary() {
                Result::Ok(e) => e,
                Result::Err(p) => {
                    proof {
                        lemma_skip_concat(loop_pre.error.reports.deep_view(), rr.reports, n0);
                        lemma_seq_parts(loop_pre.error.reports.deep_view(), n0);
                        assert(pre.error.reports.deep_view() + (delta + rr.reports)
                            =~= (pre.error.reports.deep_view() + delta) + rr.reports);
                    }
                    return Result::Err(p);
                },
            };
            proof {
                lemma_skip_concat(loop_pre.error.reports.deep_view(), rr.reports, n0);
            }
            expr = Expression::Binary(Box::new(expr), op, Box::new(right));
        }
        proof {
            lemma_seq_parts(self.error.reports.deep_view(), n0);
        }
        Result::Ok(expr)
    }

    /// An expression: the lowest-precedence level; exactly
    /// `spec_expression`.
    pub fn expression(&mut self) -> (r: Result<Expression, ParseError>)
        requires
            old(self).wf(),
        ensures
            final(self).wf(),
            level_post(
                *old(self),
                *final(self),
                r,
                spec_expression(old(self).toks(), old(self).current as int),
            ),
        decreases old(self).toks().len() - old(self).current, 12int,
    {
        self.equality()
    }

    /// Parse one expression from the tokens; the entry point.
    pub fn parse(&mut self) -> (r: Result<Expression, ParseError>)
        requires
            old(self).wf(),
        ensures
            final(self).wf(),
            level_post(
                *old(self),
                *final(self),
                r,
                spec_expression(old(self).toks(), old(self).current as int),
            ),
    {
        self.expression()
    }
}


/// The text `print_ast` renders: prefix form with parentheses; a literal
/// renders to its own text (a number literal to its scanned digit span).
pub open spec fn spec_print_ast(e: ExprModel) -> Seq<char>
    decreases e,
{
    match e {
        ExprModel::Binary(l, op, r) => "("@ + op.lexeme + " "@ + spec_print_ast(*l) + " "@
            + spec_print_ast(*r) + ")"@,
        ExprModel::Grouping(g) => "("@ + "grouping "@ + spec_print_ast(*g) + ")"@,
        ExprModel::Literal(lit) => match lit {
            LiteralModel::Number(n) => n,
            LiteralModel::String(s) => s,
            LiteralModel::Bool(b) => if b {
                "true"@
            } else {
                "false"@
            },
            LiteralModel::Nil => "nil"@,
        },
        ExprModel::Unary(op, r) => "("@ + op.lexeme + " "@ + spec_print_ast(*r) + ")"@,
    }
}

impl Parser {
    /// Render an expression tree to text, exactly as `spec_print_ast` says.
    pub fn print_ast(expr: &Expression) -> (s: String)
        ensures
            s@ == spec_print_ast(expr@),
        decreases expr,
    {
        let mut string = String::new();
        string.append("(");
        match expr {
            Expression::Binary(lhs, op, rhs) => {
                string.append(op.lexeme.as_str());
                string.append(" ");
                let left_text = Parser::print_ast(lhs);
                string.append(left_text.as_str());
                string.append(" ");
                let right_text = Parser::print_ast(rhs);
                string.append(right_text.as_str());
            },
            Expression::Grouping(group) => {
                string.append("grouping ");
                let inner_text = Parser::print_ast(group);
                string.append(inner_text.as_str());
            },
            Expression::Literal(liter) => {
                match liter {
                    Literal::Number(n) => {
                        return n.clone();
                    },
                    Literal::String(s) => {
                        return s.clone();
                    },
                    Literal::Bool(b) => {
                        return if *b {
                            String::from_str("true")
                        } else {
                            String::from_str("false")
                        };
                    },
                    Literal::Nil => {
                        return String::from_str("nil");
                    },
                }
            },
            Expression::Unary(op, rhs) => {
                string.append(op.lexeme.as_str());
                string.append(" ");
                let right_text = Parser::print_ast(rhs);
                string.append(right_text.as_str());
            },
        }
        string.append(")");
        proof {
            assert(string@ =~= spec_print_ast(expr@));
        }
        string
    }
}


/// Whether no operator of a binary level above `l` stands at the root of
/// `e`.
pub open spec fn root_max(e: ExprModel, l: int) -> bool {
    match e {
        ExprModel::Binary(_, op, _) => forall|m: int|
            l < m <= 4 ==> !(#[trigger] level_ops(m, op.typ)),
        _ => true,
    }
}

/// The operator structure the precedence-climbing grammar guarantees,
/// throughout a tree. Under every binary node of some level: the left
/// operand's root operator is at most of the same level, and the right
/// operand's root operator is strictly tighter. Together these are
/// precedence (a looser operator never stands directly under a tighter one;
/// only an explicit grouping can put it there) and strict left-
/// associativity (`1-2-3` can only be `(1-2)-3`, and `1+2*3` only
/// `1+(2*3)`).
pub open spec fn left_assoc(e: ExprModel) -> bool
    decreases e,
{
    match e {
        ExprModel::Binary(l, op, r) => left_assoc(*l) && left_assoc(*r) && (forall|lvl: int|
            1 <= lvl <= 4 && #[trigger] level_ops(lvl, op.typ) ==> root_max(*l, lvl) && root_max(
                *r,
                lvl - 1,
            )),
        ExprModel::Unary(_, r) => left_assoc(*r),
        ExprModel::Grouping(g) => left_assoc(*g),
        ExprModel::Literal(_) => true,
    }
}

pub proof fn lemma_primary_left_assoc(toks: Seq<TokenModel>, pos: int)
    requires
        0 <= pos < toks.len(),
    ensures
        spec_primary(toks, pos).out is Ok ==> left_assoc(spec_primary(toks, pos).out->Ok_0)
            && root_max(spec_primary(toks, pos).out->Ok_0, 0),
    decreases toks.len() - pos, 0int,
{
    let t = toks[pos];
    if t.typ == TokenType::LeftParenthesis && pos + 1 < toks.len() {
        lemma_expression_left_assoc(toks, pos + 1);
    }
}

pub proof fn lemma_unary_left_assoc(toks: Seq<TokenModel>, pos: int)
    requires
        0 <= pos < toks.len(),
    ensures
        spec_unary(toks, pos).out is Ok ==> left_assoc(spec_unary(toks, pos).out->Ok_0)
            && root_max(spec_unary(toks, pos).out->Ok_0, 0),
    decreases toks.len() - pos, 1int,
{
    let t = toks[pos];
    if (t.typ == TokenType::Not || t.typ == TokenType::Minus) && pos + 1 < toks.len() {
        lemma_unary_left_assoc(toks, pos + 1);
    } else {
        lemma_primary_left_assoc(toks, pos);
    }
}

pub proof fn lemma_level_left_assoc(toks: Seq<TokenModel>, pos: int, level: int)
    requires
        0 <= pos < toks.len(),
        0 <= level <= 4,
    ensures
        spec_level(toks, pos, level).out is Ok ==> left_assoc(
            spec_level(toks, pos, level).out->Ok_0,
        ) && root_max(spec_level(toks, pos, level).out->Ok_0, level),
    decreases toks.len() - pos, 2 + 2 * level,
{
    if level == 0 {
        lemma_unary_left_assoc(toks, pos);
    } else {
        lemma_level_left_assoc(toks, pos, level - 1);
        let first = spec_level(toks, pos, level - 1);
        if !(first.out is Err) && pos < first.pos < toks.len() {
            lemma_level_tail_left_assoc(toks, first.out->Ok_0, first.pos, level, first.reports);
        }
    }
}

pub proof fn lemma_level_tail_left_assoc(
    toks: Seq<TokenModel>,
    acc: ExprModel,
    pos: int,
    level: int,
    reports: Seq<ReportModel>,
)
    requires
        0 <= pos < toks.len(),
        1 <= level <= 4,
        left_assoc(acc),
        root_max(acc, level),
    ensures
        spec_level_tail(toks, acc, pos, level, reports).out is Ok ==> left_assoc(
            spec_level_tail(toks, acc, pos, level, reports).out->Ok_0,
        ) && root_max(spec_level_tail(toks, acc, pos, level, reports).out->Ok_0, level),
    decreases toks.len() - pos, 3 + 2 * level,
{
    let t = toks[pos];
    if level_ops(level, t.typ) && t.typ != TokenType::Eof && pos + 1 < toks.len() {
        lemma_level_left_assoc(toks, pos + 1, level - 1);
        let r = spec_level(toks, pos + 1, level - 1);
        if !(r.out is Err) {
            let acc2 = ExprModel::Binary(Box::new(acc), t, Box::new(r.out->Ok_0));
            assert(left_assoc(acc2));
            assert(root_max(acc2, level));
            if pos < r.pos < toks.len() {
                lemma_level_tail_left_assoc(toks, acc2, r.pos, level, reports + r.reports);
            }
        }
    }
}

/// Left-associativity and precedence, for every input: whenever the
/// grammar returns a tree, that tree is strictly left-associative and
/// respects the operator levels.
pub proof fn lemma_expression_left_assoc(toks: Seq<TokenModel>, pos: int)
    requires
        0 <= pos < toks.len(),
    ensures
        spec_expression(toks, pos).out is Ok ==> left_assoc(spec_expression(toks, pos).out->Ok_0),
    decreases toks.len() - pos, 12int,
{
    lemma_level_left_assoc(toks, pos, 4);
}

} // verus!
