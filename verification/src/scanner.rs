//! The scanner: one forward pass over a character sequence producing the
//! token sequence, terminated by exactly one end-of-input token.
//!
//! The whole pass is specified by `scan_from`, which folds the single-token
//! step function `scan_step` over the source; `Scanner::scan` is proved to
//! produce exactly that sequence of tokens and diagnostics.
use vstd::prelude::*;

use crate::token::{Literal, LiteralModel, Token, TokenModel, TokenType};

verus! {

/// A lexical diagnostic. The scanner reports these directly (it does not go
/// through the parser's shared sink); rendering them is the caller's task.
#[derive(Clone, Copy, PartialEq, Eq, Debug)]
pub enum ScanDiagnostic {
    UnexpectedSymbol(char),
    UnterminatedString,
}

pub open spec fn spec_is_digit(c: char) -> bool {
    '0' <= c && c <= '9'
}

pub open spec fn spec_is_alpha(c: char) -> bool {
    ('a' <= c && c <= 'z') || ('A' <= c && c <= 'Z') || c == '_'
}

pub open spec fn spec_is_ident_char(c: char) -> bool {
    spec_is_alpha(c) || spec_is_digit(c)
}

/// First index at or after `j` holding a non-digit, or the end of `src`.
pub open spec fn digits_end(src: Seq<char>, j: int) -> int
    decreases src.len() - j,
    when 0 <= j <= src.len()
{
    if j < src.len() && spec_is_digit(src[j]) {
        digits_end(src, j + 1)
    } else {
        j
    }
}

/// First index at or after `j` holding a non-identifier character.
pub open spec fn ident_end(src: Seq<char>, j: int) -> int
    decreases src.len() - j,
    when 0 <= j <= src.len()
{
    if j < src.len() && spec_is_ident_char(src[j]) {
        ident_end(src, j + 1)
    } else {
        j
    }
}

/// First index at or after `j` holding a newline, or the end of `src`
/// (a line comment runs up to, not including, that index).
pub open spec fn comment_end(src: Seq<char>, j: int) -> int
    decreases src.len() - j,
    when 0 <= j <= src.len()
{
    if j < src.len() && src[j] != '\n' {
        comment_end(src, j + 1)
    } else {
        j
    }
}

/// First index at or after `j` holding a double quote, or the end of `src`.
pub open spec fn quote_end(src: Seq<char>, j: int) -> int
    decreases src.len() - j,
    when 0 <= j <= src.len()
{
    if j < src.len() && src[j] != '"' {
        quote_end(src, j + 1)
    } else {
        j
    }
}

/// How many newline characters `src` holds in the index range `[a, b)`.
pub open spec fn newlines_in(src: Seq<char>, a: int, b: int) -> int
    decreases b - a,
    when a <= b
{
    if a < b {
        (if src[a] == '\n' {
            1int
        } else {
            0int
        }) + newlines_in(src, a + 1, b)
    } else {
        0
    }
}

/// The fixed keyword table: keyword text to token kind; any other
/// identifier text maps to nothing.
pub open spec fn keyword_kind(s: Seq<char>) -> Option<TokenType> {
    if s == "and"@ {
        Some(TokenType::And)
    } else if s == "class"@ {
        Some(TokenType::Class)
    } else if s == "else"@ {
        Some(TokenType::Else)
    } else if s == "false"@ {
        Some(TokenType::False)
    } else if s == "for"@ {
        Some(TokenType::For)
    } else if s == "fun"@ {
        Some(TokenType::Fun)
    } else if s == "if"@ {
        Some(TokenType::If)
    } else if s == "nil"@ {
        Some(TokenType::Nil)
    } else if s == "or"@ {
        Some(TokenType::Or)
    } else if s == "print"@ {
        Some(TokenType::Print)
    } else if s == "return"@ {
        Some(TokenType::Return)
    } else if s == "super"@ {
        Some(TokenType::Super)
    } else if s == "this"@ {
        Some(TokenType::This)
    } else if s == "true"@ {
        Some(TokenType::True)
    } else if s == "var"@ {
        Some(TokenType::Var)
    } else if s == "while"@ {
        Some(TokenType::While)
    } else {
        None
    }
}

/// The effect of scanning one maximal item starting at index `i`: where the
/// cursor lands, the line counter afterwards, and at most one token and one
/// diagnostic emitted.
pub ghost struct ScanStep {
    pub next: int,
    pub line: int,
    pub tok: Option<TokenModel>,
    pub diag: Option<ScanDiagnostic>,
}

pub open spec fn single_step(src: Seq<char>, i: int, line: int, typ: TokenType) -> ScanStep {
    ScanStep {
        next: i + 1,
        line,
        tok: Some(
            TokenModel { typ, lexeme: src.subrange(i, i + 1), literal: None, line },
        ),
        diag: None,
    }
}

/// Maximal munch for `! = < >`: take the `=` continuation when present.
pub open spec fn pair_step(
    src: Seq<char>,
    i: int,
    line: int,
    expected: char,
    long_type: TokenType,
    short_type: TokenType,
) -> ScanStep {
    if i + 1 < src.len() && src[i + 1] == expected {
        ScanStep {
            next: i + 2,
            line,
            tok: Some(
                TokenModel { typ: long_type, lexeme: src.subrange(i, i + 2), literal: None, line },
            ),
            diag: None,
        }
    } else {
        single_step(src, i, line, short_type)
    }
}

/// `/` alone is a token; `//` opens a comment running to the next newline.
pub open spec fn slash_step(src: Seq<char>, i: int, line: int) -> ScanStep {
    if i + 1 < src.len() && src[i + 1] == '/' {
        ScanStep { next: comment_end(src, i + 2), line, tok: None, diag: None }
    } else {
        single_step(src, i, line, TokenType::Slash)
    }
}

/// A string literal opened at `i`: runs to the next `"`, counting embedded
/// newlines; an unterminated one yields a diagnostic and no token.
pub open spec fn string_step(src: Seq<char>, i: int, line: int) -> ScanStep {
    let q = quote_end(src, i + 1);
    let line2 = line + newlines_in(src, i + 1, q);
    if q < src.len() {
        ScanStep {
            next: q + 1,
            line: line2,
            tok: Some(
                TokenModel {
                    typ: TokenType::String,
                    lexeme: src.subrange(i, q + 1),
                    literal: Some(LiteralModel::String(src.subrange(i + 1, q))),
                    line: line2,
                },
            ),
            diag: None,
        }
    } else {
        ScanStep {
            next: src.len() as int,
            line: line2,
            tok: None,
            diag: Some(ScanDiagnostic::UnterminatedString),
        }
    }
}

/// A number literal opened at the digit at `i`: all following digits, then
/// optionally one `.` that is itself followed by a digit, and the digits
/// after it. The literal payload is the exact digit span.
pub open spec fn number_step(src: Seq<char>, i: int, line: int) -> ScanStep {
    let e1 = digits_end(src, i + 1);
    let end = if e1 + 1 < src.len() && src[e1] == '.' && spec_is_digit(src[e1 + 1]) {
        digits_end(src, e1 + 1)
    } else {
        e1
    };
    ScanStep {
        next: end,
        line,
        tok: Some(
            TokenModel {
                typ: TokenType::Number,
                lexeme: src.subrange(i, end),
                literal: Some(LiteralModel::Number(src.subrange(i, end))),
                line,
            },
        ),
        diag: None,
    }
}

/// An identifier or keyword opened at the letter or underscore at `i`.
pub open spec fn ident_step(src: Seq<char>, i: int, line: int) -> ScanStep {
    let end = ident_end(src, i + 1);
    let typ = match keyword_kind(src.subrange(i, end)) {
        Some(k) => k,
        None => TokenType::Identifier,
    };
    ScanStep {
        next: end,
        line,
        tok: Some(
            TokenModel { typ, lexeme: src.subrange(i, end), literal: None, line },
        ),
        diag: None,
    }
}

/// One dispatch of the scanner on the character at `i`, in the priority
/// order: braces, whitespace and newline, string literal, operators and
/// comments, number literal, identifier or keyword, unexpected symbol.
pub open spec fn scan_step(src: Seq<char>, i: int, line: int) -> ScanStep {
    let c = src[i];
    if c == '(' {
        single_step(src, i, line, TokenType::LeftParenthesis)
    } else if c == ')' {
        single_step(src, i, line, TokenType::RightParenthesis)
    } else if c == '{' {
        single_step(src, i, line, TokenType::LeftBrace)
    } else if c == '}' {
        single_step(src, i, line, TokenType::RightBrace)
    } else if c == ' ' || c == '\r' || c == '\t' {
        ScanStep { next: i + 1, line, tok: None, diag: None }
    } else if c == '\n' {
        ScanStep { next: i + 1, line: line + 1, tok: None, diag: None }
    } else if c == '"' {
        string_step(src, i, line)
    } else if c == ',' {
        single_step(src, i, line, TokenType::Comma)
    } else if c == '.' {
        single_step(src, i, line, TokenType::Dot)
    } else if c == '-' {
        single_step(src, i, line, TokenType::Minus)
    } else if c == '+' {
        single_step(src, i, line, TokenType::Plus)
    } else if c == ';' {
        single_step(src, i, line, TokenType::Semicolon)
    } else if c == '*' {
        single_step(src, i, line, TokenType::Star)
    } else if c == '!' {
        pair_step(src, i, line, '=', TokenType::NotEqual, TokenType::Not)
    } else if c == '=' {
        pair_step(src, i, line, '=', TokenType::EqualEqual, TokenType::Equal)
    } else if c == '<' {
        pair_step(src, i, line, '=', TokenType::LessEqual, TokenType::Less)
    } else if c == '>' {
        pair_step(src, i, line, '=', TokenType::GreaterEqual, TokenType::Greater)
    } else if c == '/' {
        slash_step(src, i, line)
    } else if spec_is_digit(c) {
        number_step(src, i, line)
    } else if spec_is_alpha(c) {
        ident_step(src, i, line)
    } else {
        ScanStep { next: i + 1, line, tok: None, diag: Some(ScanDiagnostic::UnexpectedSymbol(c)) }
    }
}

/// The end-of-input token: empty lexeme, no literal, the final line.
pub open spec fn eof_token(line: int) -> TokenModel {
    TokenModel { typ: TokenType::Eof, lexeme: Seq::<char>::empty(), literal: None, line }
}

pub open spec fn opt_to_seq<A>(o: Option<A>) -> Seq<A> {
    match o {
        Some(a) => seq![a],
        None => Seq::<A>::empty(),
    }
}

/// The tokens and diagnostics of one whole scan.
pub ghost struct ScanOut {
    pub toks: Seq<TokenModel>,
    pub diags: Seq<ScanDiagnostic>,
}

pub proof fn lemma_digits_end_bounds(src: Seq<char>, j: int)
    requires
        0 <= j <= src.len(),
    ensures
        j <= digits_end(src, j) <= src.len(),
    decreases src.len() - j,
{
    if j < src.len() && spec_is_digit(src[j]) {
        lemma_digits_end_bounds(src, j + 1);
    }
}

pub proof fn lemma_ident_end_bounds(src: Seq<char>, j: int)
    requires
        0 <= j <= src.len(),
    ensures
        j <= ident_end(src, j) <= src.len(),
    decreases src.len() - j,
{
    if j < src.len() && spec_is_ident_char(src[j]) {
        lemma_ident_end_bounds(src, j + 1);
    }
}

pub proof fn lemma_comment_end_bounds(src: Seq<char>, j: int)
    requires
        0 <= j <= src.len(),
    ensures
        j <= comment_end(src, j) <= src.len(),
    decreases src.len() - j,
{
    if j < src.len() && src[j] != '\n' {
        lemma_comment_end_bounds(src, j + 1);
    }
}

pub proof fn lemma_quote_end_bounds(src: Seq<char>, j: int)
    requires
        0 <= j <= src.len(),
    ensures
        j <= quote_end(src, j) <= src.len(),
    decreases src.len() - j,
{
    if j < src.len() && src[j] != '"' {
        lemma_quote_end_bounds(src, j + 1);
    }
}

pub proof fn lemma_newlines_in_bounds(src: Seq<char>, a: int, b: int)
    requires
        a <= b,
    ensures
        0 <= newlines_in(src, a, b) <= b - a,
    decreases b - a,
{
    if a < b {
        lemma_newlines_in_bounds(src, a + 1, b);
    }
}

/// Every step consumes at least one character, never passes the end, and
/// advances the line counter by at most the characters it consumed.
pub proof fn lemma_scan_step_props(src: Seq<char>, i: int, line: int)
    requires
        0 <= i < src.len(),
    ensures
        i < scan_step(src, i, line).next <= src.len(),
        line <= scan_step(src, i, line).line <= line + (scan_step(src, i, line).next - i),
{
    let c = src[i];
    if c == '"' {
        lemma_quote_end_bounds(src, i + 1);
        let q = quote_end(src, i + 1);
        lemma_newlines_in_bounds(src, i + 1, q);
    } else if c == '/' {
        if i + 1 < src.len() && src[i + 1] == '/' {
            lemma_comment_end_bounds(src, i + 2);
        }
    } else if c == '(' || c == ')' || c == '{' || c == '}' || c == ' ' || c == '\r' || c == '\t'
        || c == '\n' || c == ',' || c == '.' || c == '-' || c == '+' || c == ';' || c == '*'
        || c == '!' || c == '=' || c == '<' || c == '>' {
    } else if spec_is_digit(c) {
        lemma_digits_end_bounds(src, i + 1);
        let e1 = digits_end(src, i + 1);
        if e1 + 1 < src.len() && src[e1] == '.' && spec_is_digit(src[e1 + 1]) {
            lemma_digits_end_bounds(src, e1 + 1);
            assert(digits_end(src, e1 + 1) == digits_end(src, e1 + 2));
            lemma_digits_end_bounds(src, e1 + 2);
        }
    } else if spec_is_alpha(c) {
        lemma_ident_end_bounds(src, i + 1);
    }
}

/// The whole scan from cursor `i` on line `line`: fold `scan_step` until the
/// end of input, then one end-of-input token.
pub open spec fn scan_from(src: Seq<char>, i: int, line: int) -> ScanOut
    decreases src.len() - i,
    when 0 <= i <= src.len()
{
    if i >= src.len() {
        ScanOut { toks: seq![eof_token(line)], diags: Seq::<ScanDiagnostic>::empty() }
    } else {
        let st = scan_step(src, i, line);
        let rest = ({
            proof {
                lemma_scan_step_props(src, i, line);
            }
            scan_from(src, st.next, st.line)
        });
        ScanOut { toks: opt_to_seq(st.tok) + rest.toks, diags: opt_to_seq(st.diag) + rest.diags }
    }
}

/// Token termination: every scan ends with the end-of-input token, and no
/// token before it is one.
pub proof fn lemma_scan_termination(src: Seq<char>, i: int, line: int)
    requires
        0 <= i <= src.len(),
    ensures
        scan_from(src, i, line).toks.len() >= 1,
        scan_from(src, i, line).toks.last().typ == TokenType::Eof,
        forall|k: int|
            0 <= k < scan_from(src, i, line).toks.len() - 1 ==> (#[trigger] scan_from(
                src,
                i,
                line,
            ).toks[k]).typ != TokenType::Eof,
    decreases src.len() - i,
{
    if i < src.len() {
        let st = scan_step(src, i, line);
        lemma_scan_step_props(src, i, line);
        lemma_scan_termination(src, st.next, st.line);
    }
}


/// Relies on `String::push`: appends the given character to the string.
#[verifier::external_body]
fn push_char(s: &mut String, c: char)
    ensures
        final(s)@ == old(s)@.push(c),
{
    s.push(c);
}

/// The exact source substring covering the index range `[a, b)`.
fn substring(src: &Vec<char>, a: usize, b: usize) -> (s: String)
    requires
        a <= b <= src@.len(),
    ensures
        s@ == src@.subrange(a as int, b as int),
{
    let mut out = String::new();
    let mut j: usize = a;
    while j < b
        invariant
            a <= j <= b <= src@.len(),
            out@ == src@.subrange(a as int, j as int),
        decreases b - j,
    {
        push_char(&mut out, src[j]);
        proof {
            assert(src@.subrange(a as int, j as int).push(src@[j as int]) =~= src@.subrange(
                a as int,
                j + 1 as int,
            ));
        }
        j = j + 1;
    }
    out
}

/// The keyword table the scanner carries: the sixteen keywords in a fixed
/// order, each with its token kind.
pub open spec fn keywords_ok(kw: Seq<(String, TokenType)>) -> bool {
    &&& kw.len() == 16
    &&& kw[0].0@ == "and"@ && kw[0].1 == TokenType::And
    &&& kw[1].0@ == "class"@ && kw[1].1 == TokenType::Class
    &&& kw[2].0@ == "else"@ && kw[2].1 == TokenType::Else
    &&& kw[3].0@ == "false"@ && kw[3].1 == TokenType::False
    &&& kw[4].0@ == "for"@ && kw[4].1 == TokenType::For
    &&& kw[5].0@ == "fun"@ && kw[5].1 == TokenType::Fun
    &&& kw[6].0@ == "if"@ && kw[6].1 == TokenType::If
    &&& kw[7].0@ == "nil"@ && kw[7].1 == TokenType::Nil
    &&& kw[8].0@ == "or"@ && kw[8].1 == TokenType::Or
    &&& kw[9].0@ == "print"@ && kw[9].1 == TokenType::Print
    &&& kw[10].0@ == "return"@ && kw[10].1 == TokenType::Return
    &&& kw[11].0@ == "super"@ && kw[11].1 == TokenType::Super
    &&& kw[12].0@ == "this"@ && kw[12].1 == TokenType::This
    &&& kw[13].0@ == "true"@ && kw[13].1 == TokenType::True
    &&& kw[14].0@ == "var"@ && kw[14].1 == TokenType::Var
    &&& kw[15].0@ == "while"@ && kw[15].1 == TokenType::While
}

pub struct Scanner {
    pub source: Vec<char>,
    pub tokens: Vec<Token>,
    pub start: usize,
    pub current: usize,
    pub line: u32,
    pub keywords: Vec<(String, TokenType)>,
    pub diagnostics: Vec<ScanDiagnostic>,
}

/// Everything one dispatch leaves unchanged, and the parts it changes,
/// related to the step it took.
pub open spec fn stepped(pre: Scanner, post: Scanner, st: ScanStep) -> bool {
    &&& post.source == pre.source
    &&& post.keywords == pre.keywords
    &&& post.start == pre.start
    &&& post.current as int == st.next
    &&& post.line as int == st.line
    &&& post.tokens.deep_view() == (match st.tok {
        Some(t) => pre.tokens.deep_view().push(t),
        None => pre.tokens.deep_view(),
    })
    &&& post.diagnostics@ == (match st.diag {
        Some(d) => pre.diagnostics@.push(d),
        None => pre.diagnostics@,
    })
}

pub open spec fn untouched(pre: Scanner, post: Scanner) -> bool {
    &&& post.source == pre.source
    &&& post.keywords == pre.keywords
    &&& post.start == pre.start
    &&& post.current == pre.current
    &&& post.line == pre.line
    &&& post.tokens == pre.tokens
    &&& post.diagnostics == pre.diagnostics
}

impl Scanner {
    /// The scanner's invariant: the keyword table is the fixed one, the
    /// cursor is inside the source, and the line counter has room to grow by
    /// one per remaining character.
    pub open spec fn wf(&self) -> bool {
        &&& keywords_ok(self.keywords@)
        &&& self.current <= self.source@.len()
        &&& self.line as int + (self.source@.len() - self.current as int) <= u32::MAX as int
        &&& 1 <= self.line
    }

    /// A fresh scanner over `source`: cursor at the start, line one, no
    /// tokens, no diagnostics, the keyword table in place.
    pub fn new(source: Vec<char>) -> (s: Scanner)
        requires
            source@.len() + 1 <= u32::MAX as int,
        ensures
            s.wf(),
            s.source == source,
            s.tokens.deep_view() == Seq::<TokenModel>::empty(),
            s.diagnostics@ == Seq::<ScanDiagnostic>::empty(),
            s.current == 0,
            s.start == 0,
            s.line == 1,
    {
        let mut keywords: Vec<(String, TokenType)> = Vec::new();
        keywords.push((String::from_str("and"), TokenType::And));
        keywords.push((String::from_str("class"), TokenType::Class));
        keywords.push((String::from_str("else"), TokenType::Else));
        keywords.push((String::from_str("false"), TokenType::False));
        keywords.push((String::from_str("for"), TokenType::For));
        keywords.push((String::from_str("fun"), TokenType::Fun));
        keywords.push((String::from_str("if"), TokenType::If));
        keywords.push((String::from_str("nil"), TokenType::Nil));
        keywords.push((String::from_str("or"), TokenType::Or));
        keywords.push((String::from_str("print"), TokenType::Print));
        keywords.push((String::from_str("return"), TokenType::Return));
        keywords.push((String::from_str("super"), TokenType::Super));
        keywords.push((String::from_str("this"), TokenType::This));
        keywords.push((String::from_str("true"), TokenType::True));
        keywords.push((String::from_str("var"), TokenType::Var));
        keywords.push((String::from_str("while"), TokenType::While));
        let s = Scanner {
            source,
            tokens: Vec::new(),
            start: 0,
            current: 0,
            line: 1,
            keywords,
            diagnostics: Vec::new(),
        };
        proof {
            assert(s.tokens.deep_view() =~= Seq::<TokenModel>::empty());
        }
        s
    }

    /// The tokens scanned so far, handing the scanner's buffer to the caller.
    pub fn tokens(self) -> (t: Vec<Token>)
        ensures
            t == self.tokens,
    {
        self.tokens
    }

    /// The lexical diagnostics reported so far, oldest first.
    pub fn diagnostics(&self) -> (d: &Vec<ScanDiagnostic>)
        ensures
            d == &self.diagnostics,
    {
        &self.diagnostics
    }

    fn is_end(&self) -> (r: bool)
        ensures
            r == (self.current >= self.source@.len()),
    {
        self.current >= self.source.len()
    }

    fn advance(&mut self) -> (c: char)
        requires
            old(self).current < old(self).source@.len(),
        ensures
            final(self).current == old(self).current + 1,
            c == old(self).source@[old(self).current as int],
            final(self).source == old(self).source,
            final(self).keywords == old(self).keywords,
            final(self).start == old(self).start,
            final(self).line == old(self).line,
            final(self).tokens == old(self).tokens,
            final(self).diagnostics == old(self).diagnostics,
    {
        let n = self.source.len();
        let c = self.source[self.current];
        assert(self.current < n);
        self.current = self.current + 1;
        c
    }

    fn peek(&self) -> (r: Option<char>)
        ensures
            r == (if self.current < self.source@.len() {
                Some(self.source@[self.current as int])
            } else {
                None::<char>
            }),
    {
        if self.is_end() {
            return None;
        }
        Some(self.source[self.current])
    }

    fn peek_next(&self) -> (r: Option<char>)
        ensures
            r == (if self.current + 1 < self.source@.len() {
                Some(self.source@[self.current + 1])
            } else {
                None::<char>
            }),
    {
        let n = self.source.len();
        if self.current >= n {
            return None;
        }
        if self.current + 1 >= n {
            return None;
        }
        Some(self.source[self.current + 1])
    }

    fn match_and_advance(&mut self, expected: char) -> (r: bool)
        ensures
            r == (old(self).current < old(self).source@.len() && old(self).source@[old(
                self,
            ).current as int] == expected),
            final(self).current as int == if r {
                old(self).current + 1
            } else {
                old(self).current as int
            },
            final(self).source == old(self).source,
            final(self).keywords == old(self).keywords,
            final(self).start == old(self).start,
            final(self).line == old(self).line,
            final(self).tokens == old(self).tokens,
            final(self).diagnostics == old(self).diagnostics,
    {
        if self.is_end() {
            return false;
        }
        let n = self.source.len();
        if self.source[self.current] != expected {
            return false;
        }
        assert(self.current < n);
        self.current = self.current + 1;
        true
    }

    fn add_token(&mut self, typ: TokenType, literal: Option<Literal>)
        requires
            old(self).start <= old(self).current <= old(self).source@.len(),
        ensures
            final(self).tokens.deep_view() == old(self).tokens.deep_view().push(
                TokenModel {
                    typ,
                    lexeme: old(self).source@.subrange(
                        old(self).start as int,
                        old(self).current as int,
                    ),
                    literal: literal.deep_view(),
                    line: old(self).line as int,
                },
            ),
            final(self).source == old(self).source,
            final(self).keywords == old(self).keywords,
            final(self).start == old(self).start,
            final(self).current == old(self).current,
            final(self).line == old(self).line,
            final(self).diagnostics == old(self).diagnostics,
    {
        let lexeme = substring(&self.source, self.start, self.current);
        let line = self.line;
        self.tokens.push(Token { typ, lexeme, literal, line });
        proof {
            assert(final(self).tokens.deep_view() =~= old(self).tokens.deep_view().push(
                final(self).tokens.deep_view().last(),
            ));
        }
    }

    fn add_token_without_lexeme(&mut self, typ: TokenType)
        requires
            old(self).start <= old(self).current <= old(self).source@.len(),
        ensures
            final(self).tokens.deep_view() == old(self).tokens.deep_view().push(
                TokenModel {
                    typ,
                    lexeme: old(self).source@.subrange(
                        old(self).start as int,
                        old(self).current as int,
                    ),
                    literal: None,
                    line: old(self).line as int,
                },
            ),
            final(self).source == old(self).source,
            final(self).keywords == old(self).keywords,
            final(self).start == old(self).start,
            final(self).current == old(self).current,
            final(self).line == old(self).line,
            final(self).diagnostics == old(self).diagnostics,
    {
        self.add_token(typ, None);
    }
}


/// Extending the counted range by one character on the right adds one
/// exactly when that character is a newline.
pub proof fn lemma_newlines_snoc(src: Seq<char>, a: int, b: int)
    requires
        a <= b,
    ensures
        newlines_in(src, a, b + 1) == newlines_in(src, a, b) + (if src[b] == '\n' {
            1int
        } else {
            0int
        }),
    decreases b - a,
{
    if a < b {
        lemma_newlines_snoc(src, a + 1, b);
    } else {
        reveal_with_fuel(newlines_in, 2);
    }
}

impl Scanner {
    /// Look `text` up in the keyword table.
    fn lookup_keyword(&self, text: &String) -> (r: Option<TokenType>)
        requires
            keywords_ok(self.keywords@),
        ensures
            r == keyword_kind(text@),
    {
        let mut i: usize = 0;
        while i < self.keywords.len()
            invariant
                keywords_ok(self.keywords@),
                0 <= i <= self.keywords@.len(),
                forall|k: int| 0 <= k < i ==> text@ != (#[trigger] self.keywords@[k]).0@,
            decreases self.keywords@.len() - i,
        {
            let entry = &self.keywords[i];
            if entry.0.eq(text) {
                return Some(entry.1);
            }
            i = i + 1;
        }
        None
    }

    fn match_brace(&mut self, symbol: char) -> (r: bool)
        requires
            old(self).wf(),
            old(self).start < old(self).source@.len(),
            old(self).start + 1 == old(self).current,
            symbol == old(self).source@[old(self).start as int],
        ensures
            r == (symbol == '(' || symbol == ')' || symbol == '{' || symbol == '}'),
            r ==> stepped(
                *old(self),
                *final(self),
                scan_step(old(self).source@, old(self).start as int, old(self).line as int),
            ),
            !r ==> untouched(*old(self), *final(self)),
    {
        match symbol {
            '(' => self.add_token_without_lexeme(TokenType::LeftParenthesis),
            ')' => self.add_token_without_lexeme(TokenType::RightParenthesis),
            '{' => self.add_token_without_lexeme(TokenType::LeftBrace),
            '}' => self.add_token_without_lexeme(TokenType::RightBrace),
            _ => {
                return false;
            },
        }
        true
    }

    fn match_escape(&mut self, symbol: char) -> (r: bool)
        requires
            old(self).wf(),
            old(self).start < old(self).source@.len(),
            old(self).start + 1 == old(self).current,
            symbol == old(self).source@[old(self).start as int],
            old(self).line as int + (old(self).source@.len() - old(self).start as int)
                <= u32::MAX as int,
        ensures
            r == (symbol == ' ' || symbol == '\r' || symbol == '\t' || symbol == '\n'),
            r ==> stepped(
                *old(self),
                *final(self),
                scan_step(old(self).source@, old(self).start as int, old(self).line as int),
            ),
            !r ==> untouched(*old(self), *final(self)),
    {
        match symbol {
            ' ' | '\r' | '\t' => {},
            '\n' => {
                self.line = self.line + 1;
            },
            _ => {
                return false;
            },
        }
        true
    }

    fn match_string(&mut self) -> (r: bool)
        requires
            old(self).wf(),
            old(self).start < old(self).source@.len(),
            old(self).start + 1 == old(self).current,
            old(self).line as int + (old(self).source@.len() - old(self).start as int)
                <= u32::MAX as int,
        ensures
            r == (old(self).source@[old(self).start as int] == '"'),
            r ==> stepped(
                *old(self),
                *final(self),
                scan_step(old(self).source@, old(self).start as int, old(self).line as int),
            ),
            !r ==> untouched(*old(self), *final(self)),
    {
        if self.source[self.current - 1] != '"' {
            return false;
        }
        let ghost src = self.source@;
        let ghost i = self.start as int;
        let ghost line0 = self.line as int;
        while self.current < self.source.len() && self.source[self.current] != '"'
            invariant
                src == old(self).source@,
                i == old(self).start as int,
                line0 == old(self).line as int,
                old(self).start + 1 <= self.current <= self.source@.len(),
                quote_end(src, i + 1) == quote_end(src, self.current as int),
                self.line as int == line0 + newlines_in(src, i + 1, self.current as int),
                self.line as int + (self.source@.len() - self.current as int) < u32::MAX as int,
                self.source == old(self).source,
                self.keywords == old(self).keywords,
                self.start == old(self).start,
                self.tokens == old(self).tokens,
                self.diagnostics == old(self).diagnostics,
            decreases self.source@.len() - self.current,
        {
            proof {
                lemma_newlines_snoc(src, i + 1, self.current as int);
            }
            if self.source[self.current] == '\n' {
                self.line = self.line + 1;
            }
            let _ = self.advance();
        }
        if self.is_end() {
            self.diagnostics.push(ScanDiagnostic::UnterminatedString);
            return true;
        }
        let _ = self.advance();
        proof {
            assert(quote_end(src, self.current - 1) == self.current - 1);
        }
        let content = substring(&self.source, self.start + 1, self.current - 1);
        self.add_token(TokenType::String, Some(Literal::String(content)));
        true
    }

    fn add_long_operator(&mut self, expected_symbol: char, long_type: TokenType, short_type: TokenType)
        requires
            old(self).wf(),
            old(self).start < old(self).source@.len(),
            old(self).start + 1 == old(self).current,
        ensures
            stepped(
                *old(self),
                *final(self),
                pair_step(
                    old(self).source@,
                    old(self).start as int,
                    old(self).line as int,
                    expected_symbol,
                    long_type,
                    short_type,
                ),
            ),
    {
        if self.match_and_advance(expected_symbol) {
            self.add_token_without_lexeme(long_type);
        } else {
            self.add_token_without_lexeme(short_type);
        }
    }

    fn match_operator(&mut self, symbol: char) -> (r: bool)
        requires
            old(self).wf(),
            old(self).start < old(self).source@.len(),
            old(self).start + 1 == old(self).current,
            symbol == old(self).source@[old(self).start as int],
        ensures
            r == (symbol == ',' || symbol == '.' || symbol == '-' || symbol == '+' || symbol == ';'
                || symbol == '*' || symbol == '!' || symbol == '=' || symbol == '<' || symbol == '>'
                || symbol == '/'),
            r ==> stepped(
                *old(self),
                *final(self),
                scan_step(old(self).source@, old(self).start as int, old(self).line as int),
            ),
            !r ==> untouched(*old(self), *final(self)),
    {
        let ghost src = self.source@;
        let ghost i = self.start as int;
        match symbol {
            ',' => self.add_token_without_lexeme(TokenType::Comma),
            '.' => self.add_token_without_lexeme(TokenType::Dot),
            '-' => self.add_token_without_lexeme(TokenType::Minus),
            '+' => self.add_token_without_lexeme(TokenType::Plus),
            ';' => self.add_token_without_lexeme(TokenType::Semicolon),
            '*' => self.add_token_without_lexeme(TokenType::Star),
            '!' => self.add_long_operator('=', TokenType::NotEqual, TokenType::Not),
            '=' => self.add_long_operator('=', TokenType::EqualEqual, TokenType::Equal),
            '<' => self.add_long_operator('=', TokenType::LessEqual, TokenType::Less),
            '>' => self.add_long_operator('=', TokenType::GreaterEqual, TokenType::Greater),
            '/' => {
                if self.match_and_advance('/') {
                    while self.current < self.source.len() && self.source[self.current] != '\n'
                        invariant
                            src == old(self).source@,
                            i == old(self).start as int,
                            old(self).start + 2 <= self.current <= self.source@.len(),
                            comment_end(src, i + 2) == comment_end(src, self.current as int),
                            self.source == old(self).source,
                            self.keywords == old(self).keywords,
                            self.start == old(self).start,
                            self.line == old(self).line,
                            self.tokens == old(self).tokens,
                            self.diagnostics == old(self).diagnostics,
                        decreases self.source@.len() - self.current,
                    {
                        let _ = self.advance();
                    }
                } else {
                    self.add_token_without_lexeme(TokenType::Slash);
                }
            },
            _ => {
                return false;
            },
        }
        true
    }

    fn match_number(&mut self, symbol: char) -> (r: bool)
        requires
            old(self).wf(),
            old(self).start < old(self).source@.len(),
            old(self).start + 1 == old(self).current,
            symbol == old(self).source@[old(self).start as int],
        ensures
            r == spec_is_digit(symbol),
            r ==> stepped(
                *old(self),
                *final(self),
                scan_step(old(self).source@, old(self).start as int, old(self).line as int),
            ),
            !r ==> untouched(*old(self), *final(self)),
    {
        if !(symbol >= '0' && symbol <= '9') {
            return false;
        }
        let ghost src = self.source@;
        let ghost i = self.start as int;
        while self.current < self.source.len() && self.source[self.current] >= '0'
            && self.source[self.current] <= '9'
            invariant
                src == old(self).source@,
                i == old(self).start as int,
                old(self).start + 1 <= self.current <= self.source@.len(),
                digits_end(src, i + 1) == digits_end(src, self.current as int),
                self.source == old(self).source,
                self.keywords == old(self).keywords,
                self.start == old(self).start,
                self.line == old(self).line,
                self.tokens == old(self).tokens,
                self.diagnostics == old(self).diagnostics,
            decreases self.source@.len() - self.current,
        {
            let _ = self.advance();
        }
        proof {
            assert(self.current as int == digits_end(src, i + 1));
        }
        let next_is_dot = match self.peek() {
            Some(c) => c == '.',
            None => false,
        };
        let is_next_digit = match self.peek_next() {
            Some(c) => c >= '0' && c <= '9',
            None => false,
        };
        if next_is_dot && is_next_digit {
            let _ = self.advance();
            while self.current < self.source.len() && self.source[self.current] >= '0'
                && self.source[self.current] <= '9'
                invariant
                    src == old(self).source@,
                    i == old(self).start as int,
                    old(self).start + 2 <= self.current <= self.source@.len(),
                    digits_end(src, digits_end(src, i + 1) + 1) == digits_end(
                        src,
                        self.current as int,
                    ),
                    self.source == old(self).source,
                    self.keywords == old(self).keywords,
                    self.start == old(self).start,
                    self.line == old(self).line,
                    self.tokens == old(self).tokens,
                    self.diagnostics == old(self).diagnostics,
                decreases self.source@.len() - self.current,
            {
                let _ = self.advance();
            }
        }
        let text = substring(&self.source, self.start, self.current);
        self.add_token(TokenType::Number, Some(Literal::Number(text)));
        true
    }

    fn match_identifier(&mut self, symbol: char) -> (r: bool)
        requires
            old(self).wf(),
            old(self).start < old(self).source@.len(),
            old(self).start + 1 == old(self).current,
            symbol == old(self).source@[old(self).start as int],
            !spec_is_digit(symbol),
        ensures
            r == spec_is_alpha(symbol),
            r ==> stepped(
                *old(self),
                *final(self),
                scan_step(old(self).source@, old(self).start as int, old(self).line as int),
            ),
            !r ==> untouched(*old(self), *final(self)),
    {
        let is_alphabet = (symbol >= 'a' && symbol <= 'z') || (symbol >= 'A' && symbol <= 'Z')
            || symbol == '_';
        if !is_alphabet {
            return false;
        }
        let ghost src = self.source@;
        let ghost i = self.start as int;
        while self.current < self.source.len() && ((self.source[self.current] >= 'a'
            && self.source[self.current] <= 'z') || (self.source[self.current] >= 'A'
            && self.source[self.current] <= 'Z') || self.source[self.current] == '_'
            || (self.source[self.current] >= '0' && self.source[self.current] <= '9'))
            invariant
                src == old(self).source@,
                i == old(self).start as int,
                old(self).start + 1 <= self.current <= self.source@.len(),
                ident_end(src, i + 1) == ident_end(src, self.current as int),
                self.source == old(self).source,
                self.keywords == old(self).keywords,
                self.start == old(self).start,
                self.line == old(self).line,
                self.tokens == old(self).tokens,
                self.diagnostics == old(self).diagnostics,
            decreases self.source@.len() - self.current,
        {
            let _ = self.advance();
        }
        let identifier_name = substring(&self.source, self.start, self.current);
        match self.lookup_keyword(&identifier_name) {
            Some(kind) => self.add_token_without_lexeme(kind),
            None => self.add_token_without_lexeme(TokenType::Identifier),
        }
        true
    }

    fn match_symbol(&mut self, symbol: char) -> (r: bool)
        requires
            old(self).wf(),
            old(self).start < old(self).source@.len(),
            old(self).start + 1 == old(self).current,
            symbol == old(self).source@[old(self).start as int],
            old(self).line as int + (old(self).source@.len() - old(self).start as int)
                <= u32::MAX as int,
        ensures
            r == !(scan_step(old(self).source@, old(self).start as int, old(self).line as int).diag
                matches Some(ScanDiagnostic::UnexpectedSymbol(_))),
            r ==> stepped(
                *old(self),
                *final(self),
                scan_step(old(self).source@, old(self).start as int, old(self).line as int),
            ),
            !r ==> untouched(*old(self), *final(self)),
    {
        let mut handled = self.match_brace(symbol);
        if !handled {
            handled = self.match_escape(symbol);
        }
        if !handled {
            handled = self.match_string();
        }
        if !handled {
            handled = self.match_operator(symbol);
        }
        if !handled {
            handled = self.match_number(symbol);
        }
        if !handled {
            handled = self.match_identifier(symbol);
        }
        handled
    }

    /// Scan one item: consume at least one character and emit at most one
    /// token and at most one diagnostic, exactly as `scan_step` says.
    fn scan_token(&mut self)
        requires
            old(self).wf(),
            old(self).start == old(self).current,
            old(self).current < old(self).source@.len(),
        ensures
            final(self).wf(),
            stepped(
                *old(self),
                *final(self),
                scan_step(old(self).source@, old(self).current as int, old(self).line as int),
            ),
    {
        let symbol = self.advance();
        let handled = self.match_symbol(symbol);
        if !handled {
            self.diagnostics.push(ScanDiagnostic::UnexpectedSymbol(symbol));
        }
        proof {
            lemma_scan_step_props(
                old(self).source@,
                old(self).current as int,
                old(self).line as int,
            );
        }
    }
}


impl Scanner {
    /// Scan the whole remaining source: emit the tokens and diagnostics that
    /// `scan_from` describes, ending with exactly one end-of-input token.
    pub fn scan(&mut self)
        requires
            old(self).wf(),
        ensures
            final(self).wf(),
            final(self).source == old(self).source,
            final(self).keywords == old(self).keywords,
            final(self).tokens.deep_view() == old(self).tokens.deep_view() + scan_from(
                old(self).source@,
                old(self).current as int,
                old(self).line as int,
            ).toks,
            final(self).diagnostics@ == old(self).diagnostics@ + scan_from(
                old(self).source@,
                old(self).current as int,
                old(self).line as int,
            ).diags,
            final(self).tokens.deep_view().len() > 0,
            final(self).tokens.deep_view().last().typ == TokenType::Eof,
            old(self).tokens.deep_view().len() == 0 ==> (forall|k: int|
                0 <= k < final(self).tokens.deep_view().len() - 1
                    ==> (#[trigger] final(self).tokens.deep_view()[k]).typ != TokenType::Eof),
    {
        let ghost src = self.source@;
        let ghost c0 = self.current as int;
        let ghost l0 = self.line as int;
        let ghost pre_toks = self.tokens.deep_view();
        let ghost pre_diags = self.diagnostics@;
        let ghost n0 = pre_toks.len() as int;
        let ghost m0 = pre_diags.len() as int;
        while !self.is_end()
            invariant
                self.wf(),
                src == old(self).source@,
                c0 == old(self).current as int,
                l0 == old(self).line as int,
                pre_toks == old(self).tokens.deep_view(),
                pre_diags == old(self).diagnostics@,
                n0 == pre_toks.len() as int,
                m0 == pre_diags.len() as int,
                self.source == old(self).source,
                self.keywords == old(self).keywords,
                n0 <= self.tokens.deep_view().len(),
                m0 <= self.diagnostics@.len(),
                pre_toks == self.tokens.deep_view().take(n0),
                pre_diags == self.diagnostics@.take(m0),
                scan_from(src, c0, l0).toks == self.tokens.deep_view().skip(n0) + scan_from(
                    src,
                    self.current as int,
                    self.line as int,
                ).toks,
                scan_from(src, c0, l0).diags == self.diagnostics@.skip(m0) + scan_from(
                    src,
                    self.current as int,
                    self.line as int,
                ).diags,
            decreases self.source@.len() - self.current,
        {
            let ghost cur_pre = self.current as int;
            let ghost line_pre = self.line as int;
            let ghost toks_pre = self.tokens.deep_view();
            let ghost diags_pre = self.diagnostics@;
            self.start = self.current;
            self.scan_token();
            proof {
                let st = scan_step(src, cur_pre, line_pre);
                lemma_scan_step_props(src, cur_pre, line_pre);
                let rest = scan_from(src, st.next, st.line);
                assert(scan_from(src, cur_pre, line_pre).toks == opt_to_seq(st.tok) + rest.toks);
                assert(scan_from(src, cur_pre, line_pre).diags == opt_to_seq(st.diag)
                    + rest.diags);
                match st.tok {
                    Some(t) => {
                        assert(self.tokens.deep_view().skip(n0) =~= toks_pre.skip(n0) + seq![t]);
                        assert(toks_pre.skip(n0) + (seq![t] + rest.toks) =~= (toks_pre.skip(n0)
                            + seq![t]) + rest.toks);
                        assert(opt_to_seq(st.tok) =~= seq![t]);
                        assert(self.tokens.deep_view().take(n0) =~= toks_pre.take(n0));
                    },
                    None => {
                        assert(opt_to_seq(st.tok) =~= Seq::<TokenModel>::empty());
                        assert(Seq::<TokenModel>::empty() + rest.toks =~= rest.toks);
                    },
                }
                match st.diag {
                    Some(d) => {
                        assert(self.diagnostics@.skip(m0) =~= diags_pre.skip(m0) + seq![d]);
                        assert(diags_pre.skip(m0) + (seq![d] + rest.diags) =~= (diags_pre.skip(m0)
                            + seq![d]) + rest.diags);
                        assert(opt_to_seq(st.diag) =~= seq![d]);
                        assert(self.diagnostics@.take(m0) =~= diags_pre.take(m0));
                    },
                    None => {
                        assert(opt_to_seq(st.diag) =~= Seq::<ScanDiagnostic>::empty());
                        assert(Seq::<ScanDiagnostic>::empty() + rest.diags =~= rest.diags);
                    },
                }
            }
        }
        let ghost toks_end = self.tokens.deep_view();
        let ghost diags_end = self.diagnostics@;
        let line = self.line;
        self.tokens.push(Token { typ: TokenType::Eof, lexeme: String::new(), literal: None, line });
        proof {
            let lf = line as int;
            let t = final_eof_model(lf);
            assert(self.tokens.deep_view() =~= toks_end.push(t));
            assert(t == eof_token(lf));
            assert(scan_from(src, c0, l0).toks == toks_end.skip(n0) + seq![eof_token(lf)]);
            assert(toks_end.take(n0) + (toks_end.skip(n0) + seq![eof_token(lf)]) =~= toks_end
                + seq![eof_token(lf)]);
            assert(toks_end + seq![eof_token(lf)] =~= toks_end.push(eof_token(lf)));
            assert(scan_from(src, self.current as int, lf).diags
                =~= Seq::<ScanDiagnostic>::empty());
            assert(diags_end.skip(m0) + Seq::<ScanDiagnostic>::empty() =~= diags_end.skip(m0));
            assert(diags_end.take(m0) + diags_end.skip(m0) =~= diags_end);
            lemma_scan_termination(src, c0, l0);
        }
    }
}

/// The model of the pushed end-of-input token.
pub open spec fn final_eof_model(line: int) -> TokenModel {
    TokenModel { typ: TokenType::Eof, lexeme: Seq::<char>::empty(), literal: None, line }
}


/// Every number or string token the scanner emits carries its literal
/// payload.
pub proof fn lemma_scan_literal_payloads(src: Seq<char>, i: int, line: int)
    requires
        0 <= i <= src.len(),
    ensures
        forall|k: int|
            0 <= k < scan_from(src, i, line).toks.len() && ((#[trigger] scan_from(
                src,
                i,
                line,
            ).toks[k]).typ == TokenType::Number || scan_from(src, i, line).toks[k].typ
                == TokenType::String) ==> scan_from(src, i, line).toks[k].literal is Some,
    decreases src.len() - i,
{
    if i < src.len() {
        let st = scan_step(src, i, line);
        lemma_scan_step_props(src, i, line);
        lemma_scan_literal_payloads(src, st.next, st.line);
    }
}

} // verus!
