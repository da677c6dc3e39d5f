//! The lexer: raw text to a token stream. Whitespace separates tokens and
//! advances a line counter used for diagnostics; quoted strings, numbers,
//! identifiers, line comments and doc comments each have their own scan.
//!
//! The whole scan is modelled by spec functions over the input character
//! sequence, and `next_token` returns exactly what the model says.

use vstd::prelude::*;
use vstd::string::{StrSliceExecFns, StringExecFns};

use crate::strutil::{alnum_char, whitespace_char};

verus! {

/// The kinds of token the language distinguishes.
#[derive(Debug, Clone, Copy, PartialEq, Eq, Structural)]
pub enum TokenType {
    Ident,
    String,
    Number,
    LBrace,
    RBrace,
    LParen,
    RParen,
    Question,
    At,
    Comment,
    DocComment,
    Eof,
}

/// One token: its kind, its literal text, and the line it started on.
#[derive(Debug, PartialEq)]
pub struct Token {
    pub token_type: TokenType,
    pub literal: String,
    pub line: usize,
}

#[verifier::ext_equal]
pub ghost struct SpecToken {
    pub token_type: TokenType,
    pub literal: Seq<char>,
    pub line: nat,
}

impl View for Token {
    type V = SpecToken;

    open spec fn view(&self) -> SpecToken {
        SpecToken { token_type: self.token_type, literal: self.literal@, line: self.line as nat }
    }
}

impl Clone for Token {
    fn clone(&self) -> (r: Self)
        ensures
            r == *self,
    {
        Token { token_type: self.token_type, literal: self.literal.clone(), line: self.line }
    }
}

// ---------------------------------------------------------------------------
// Character classes
// ---------------------------------------------------------------------------

/// Characters that may make up an identifier: alphanumerics plus a small set
/// of punctuation, so unquoted paths, URLs and comma-lists lex as one token.
pub open spec fn is_ident_char(c: char) -> bool {
    alnum_char(c) || c == '_' || c == '/' || c == ':' || c == '.' || c == '-' || c == ','
}

/// An ASCII decimal digit.
pub open spec fn is_digit_char(c: char) -> bool {
    '0' <= c && c <= '9'
}

fn digit_char_exec(c: char) -> (r: bool)
    ensures
        r == is_digit_char(c),
{
    let u = c as u32;
    48 <= u && u <= 57
}

fn ident_char_exec(c: char) -> (r: bool)
    ensures
        r == is_ident_char(c),
        c == '\n' ==> !r,
{
    c.is_alphanumeric() || c == '_' || c == '/' || c == ':' || c == '.' || c == '-' || c == ','
}

// ---------------------------------------------------------------------------
// Scan positions
// ---------------------------------------------------------------------------

/// The line counter after one more line, capped so it always fits in `usize`.
pub open spec fn bump_line(l: nat) -> nat {
    if l < usize::MAX as nat {
        l + 1
    } else {
        l
    }
}

/// The line counter after stepping across `s[i..j)`.
pub open spec fn lines_across(s: Seq<char>, i: int, j: int, l: nat) -> nat
    decreases j - i,
{
    if i >= j {
        l
    } else {
        lines_across(s, i + 1, j, if s[i] == '\n' { bump_line(l) } else { l })
    }
}

/// The first position at or after `i` holding a non-whitespace character.
pub open spec fn skip_ws_pos(s: Seq<char>, i: int) -> int
    decreases s.len() - i,
{
    if 0 <= i < s.len() && whitespace_char(s[i]) {
        skip_ws_pos(s, i + 1)
    } else {
        i
    }
}

/// The end of an identifier starting at `i`.
pub open spec fn ident_end(s: Seq<char>, i: int) -> int
    decreases s.len() - i,
{
    if 0 <= i < s.len() && is_ident_char(s[i]) {
        ident_end(s, i + 1)
    } else {
        i
    }
}

/// The end of a digit run starting at `i`, allowing one `.` unless `has_dot`.
pub open spec fn number_end(s: Seq<char>, i: int, has_dot: bool) -> int
    decreases s.len() - i,
{
    if 0 <= i < s.len() && is_digit_char(s[i]) {
        number_end(s, i + 1, has_dot)
    } else if 0 <= i < s.len() && s[i] == '.' && !has_dot {
        number_end(s, i + 1, true)
    } else {
        i
    }
}

/// The position of the closing quote for a string opened before `i`,
/// or the end of input if the string is unterminated.
pub open spec fn string_end(s: Seq<char>, i: int, quote: char) -> int
    decreases s.len() - i,
{
    if 0 <= i < s.len() {
        if s[i] == quote {
            i
        } else {
            string_end(s, i + 1, quote)
        }
    } else {
        s.len() as int
    }
}

/// The end of a line comment: the next newline, or the end of input.
pub open spec fn comment_end(s: Seq<char>, i: int) -> int
    decreases s.len() - i,
{
    if 0 <= i < s.len() {
        if s[i] == '\n' {
            i
        } else {
            comment_end(s, i + 1)
        }
    } else {
        s.len() as int
    }
}

/// The position of the `*/` closing a doc comment, or the end of input.
pub open spec fn doc_end(s: Seq<char>, i: int) -> int
    decreases s.len() - i,
{
    if 0 <= i < s.len() {
        if s[i] == '*' && i + 1 < s.len() && s[i + 1] == '/' {
            i
        } else {
            doc_end(s, i + 1)
        }
    } else {
        s.len() as int
    }
}

// ---------------------------------------------------------------------------
// Literal cleanup (trim, doc-comment joining)
// ---------------------------------------------------------------------------

/// The first index of `s` holding a non-whitespace character.
pub open spec fn trim_start_idx(s: Seq<char>, i: int) -> int
    decreases s.len() - i,
{
    if 0 <= i < s.len() && whitespace_char(s[i]) {
        trim_start_idx(s, i + 1)
    } else {
        i
    }
}

/// One past the last index of `s` holding a non-whitespace character,
/// scanning down from `j`.
pub open spec fn trim_end_idx(s: Seq<char>, j: int) -> int
    decreases j,
{
    if 0 < j <= s.len() && whitespace_char(s[j - 1]) {
        trim_end_idx(s, j - 1)
    } else {
        j
    }
}

/// `s` with leading and trailing whitespace removed.
pub open spec fn spec_trim(s: Seq<char>) -> Seq<char> {
    let a = trim_start_idx(s, 0);
    let b = trim_end_idx(s, s.len() as int);
    if a <= b {
        s.subrange(a, b)
    } else {
        Seq::empty()
    }
}

/// The first index of `s` at or after `i` holding a character other than `c`.
pub open spec fn strip_leading_idx(s: Seq<char>, i: int, c: char) -> int
    decreases s.len() - i,
{
    if 0 <= i < s.len() && s[i] == c {
        strip_leading_idx(s, i + 1, c)
    } else {
        i
    }
}

/// `s` with every leading occurrence of `c` removed.
pub open spec fn spec_strip_leading(s: Seq<char>, c: char) -> Seq<char> {
    s.subrange(strip_leading_idx(s, 0, c), s.len() as int)
}

/// One source line of a doc comment, cleaned: trimmed, leading `*` stripped,
/// trimmed again.
pub open spec fn clean_doc_line(s: Seq<char>) -> Seq<char> {
    spec_trim(spec_strip_leading(spec_trim(s), '*'))
}

/// The cleaned doc-comment text built from the lines of `s[i..]`:
/// each line is cleaned, empty lines are dropped, and the rest are joined
/// with single spaces.
pub open spec fn spec_clean_doc_from(s: Seq<char>, i: int) -> Seq<char>
    decreases s.len() - i via spec_clean_doc_from_dec
{
    let e = comment_end(s, i);
    let head = clean_doc_line(s.subrange(i, e));
    if e >= s.len() {
        head
    } else {
        let rest = spec_clean_doc_from(s, e + 1);
        if head.len() == 0 {
            rest
        } else if rest.len() == 0 {
            head
        } else {
            head + seq![' '] + rest
        }
    }
}

#[via_fn]
proof fn spec_clean_doc_from_dec(s: Seq<char>, i: int) {
    if 0 <= i <= s.len() {
        lemma_comment_end_bounds(s, i);
    }
}

/// The literal of a doc comment whose raw content is `s`.
pub open spec fn spec_clean_doc(s: Seq<char>) -> Seq<char> {
    spec_clean_doc_from(s, 0)
}

// ---------------------------------------------------------------------------
// The token model
// ---------------------------------------------------------------------------

#[verifier::ext_equal]
pub ghost struct LexStep {
    pub token: SpecToken,
    pub pos: int,
    pub line: nat,
}

/// What one call of `next_token` produces and where it leaves the lexer,
/// given input `s`, position `pos` and line counter `line`.
pub open spec fn spec_next_token(s: Seq<char>, pos: int, line: nat) -> LexStep {
    let i = skip_ws_pos(s, pos);
    let tline = lines_across(s, pos, i, line);
    if i >= s.len() {
        LexStep {
            token: SpecToken { token_type: TokenType::Eof, literal: Seq::empty(), line: tline },
            pos: i,
            line: tline,
        }
    } else {
        let c = s[i];
        if c == '{' {
            single_char_step(TokenType::LBrace, c, i, tline)
        } else if c == '}' {
            single_char_step(TokenType::RBrace, c, i, tline)
        } else if c == '(' {
            single_char_step(TokenType::LParen, c, i, tline)
        } else if c == ')' {
            single_char_step(TokenType::RParen, c, i, tline)
        } else if c == '?' {
            single_char_step(TokenType::Question, c, i, tline)
        } else if c == '@' {
            single_char_step(TokenType::At, c, i, tline)
        } else if c == '"' || c == '\'' {
            let e = string_end(s, i + 1, c);
            let after = if e < s.len() {
                e + 1
            } else {
                e
            };
            LexStep {
                token: SpecToken {
                    token_type: TokenType::String,
                    literal: s.subrange(i + 1, e),
                    line: tline,
                },
                pos: after,
                line: lines_across(s, i, after, tline),
            }
        } else if c == '/' && i + 1 < s.len() && s[i + 1] == '/' {
            let e = comment_end(s, i + 2);
            LexStep {
                token: SpecToken {
                    token_type: TokenType::Comment,
                    literal: spec_trim(s.subrange(i + 2, e)),
                    line: tline,
                },
                pos: e,
                line: tline,
            }
        } else if c == '/' && i + 2 < s.len() && s[i + 1] == '*' && s[i + 2] == '*' {
            let e = doc_end(s, i + 3);
            let after = if e < s.len() {
                e + 2
            } else {
                e
            };
            LexStep {
                token: SpecToken {
                    token_type: TokenType::DocComment,
                    literal: spec_clean_doc(s.subrange(i + 3, e)),
                    line: tline,
                },
                pos: after,
                line: lines_across(s, i, after, tline),
            }
        } else if is_digit_char(c) || (c == '-' && i + 1 < s.len() && is_digit_char(s[i + 1])) {
            let start = if c == '-' {
                i + 1
            } else {
                i
            };
            let e = number_end(s, start, false);
            LexStep {
                token: SpecToken {
                    token_type: TokenType::Number,
                    literal: s.subrange(i, e),
                    line: tline,
                },
                pos: e,
                line: tline,
            }
        } else {
            let e = ident_end(s, i);
            if e > i {
                LexStep {
                    token: SpecToken {
                        token_type: TokenType::Ident,
                        literal: s.subrange(i, e),
                        line: tline,
                    },
                    pos: e,
                    line: tline,
                }
            } else {
                // A character outside every class: consume it as a one-character
                // identifier so the scan always makes progress.
                LexStep {
                    token: SpecToken {
                        token_type: TokenType::Ident,
                        literal: seq![c],
                        line: tline,
                    },
                    pos: i + 1,
                    line: lines_across(s, i, i + 1, tline),
                }
            }
        }
    }
}

pub open spec fn single_char_step(t: TokenType, c: char, i: int, line: nat) -> LexStep {
    LexStep { token: SpecToken { token_type: t, literal: seq![c], line }, pos: i + 1, line }
}

// ---------------------------------------------------------------------------
// Progress lemmas
// ---------------------------------------------------------------------------

pub proof fn lemma_skip_ws_bounds(s: Seq<char>, i: int)
    requires
        0 <= i <= s.len(),
    ensures
        i <= skip_ws_pos(s, i) <= s.len(),
    decreases s.len() - i,
{
    if 0 <= i < s.len() && whitespace_char(s[i]) {
        lemma_skip_ws_bounds(s, i + 1);
    }
}

pub proof fn lemma_ident_end_bounds(s: Seq<char>, i: int)
    requires
        0 <= i <= s.len(),
    ensures
        i <= ident_end(s, i) <= s.len(),
    decreases s.len() - i,
{
    if 0 <= i < s.len() && is_ident_char(s[i]) {
        lemma_ident_end_bounds(s, i + 1);
    }
}

pub proof fn lemma_number_end_bounds(s: Seq<char>, i: int, has_dot: bool)
    requires
        0 <= i <= s.len(),
    ensures
        i <= number_end(s, i, has_dot) <= s.len(),
    decreases s.len() - i,
{
    if 0 <= i < s.len() && is_digit_char(s[i]) {
        lemma_number_end_bounds(s, i + 1, has_dot);
    } else if 0 <= i < s.len() && s[i] == '.' && !has_dot {
        lemma_number_end_bounds(s, i + 1, true);
    }
}

pub proof fn lemma_string_end_bounds(s: Seq<char>, i: int, quote: char)
    requires
        0 <= i <= s.len(),
    ensures
        i <= string_end(s, i, quote) <= s.len(),
    decreases s.len() - i,
{
    if 0 <= i < s.len() && s[i] != quote {
        lemma_string_end_bounds(s, i + 1, quote);
    }
}

pub proof fn lemma_comment_end_bounds(s: Seq<char>, i: int)
    requires
        0 <= i <= s.len(),
    ensures
        i <= comment_end(s, i) <= s.len(),
    decreases s.len() - i,
{
    if 0 <= i < s.len() && s[i] != '\n' {
        lemma_comment_end_bounds(s, i + 1);
    }
}

pub proof fn lemma_doc_end_bounds(s: Seq<char>, i: int)
    requires
        0 <= i <= s.len(),
    ensures
        i <= doc_end(s, i) <= s.len(),
        doc_end(s, i) < s.len() ==> doc_end(s, i) + 2 <= s.len(),
    decreases s.len() - i,
{
    if 0 <= i < s.len() && !(s[i] == '*' && i + 1 < s.len() && s[i + 1] == '/') {
        lemma_doc_end_bounds(s, i + 1);
    }
}

/// `next_token` never moves backwards, never leaves the input, and moves
/// strictly forward whenever it does not report end of input.
pub proof fn lemma_next_token_progress(s: Seq<char>, pos: int, line: nat)
    requires
        0 <= pos <= s.len(),
    ensures
        pos <= spec_next_token(s, pos, line).pos <= s.len(),
        spec_next_token(s, pos, line).token.token_type != TokenType::Eof ==> spec_next_token(
            s,
            pos,
            line,
        ).pos > pos,
        spec_next_token(s, pos, line).token.token_type == TokenType::Eof ==> spec_next_token(
            s,
            pos,
            line,
        ).pos == skip_ws_pos(s, pos),
{
    lemma_skip_ws_bounds(s, pos);
    let i = skip_ws_pos(s, pos);
    if i < s.len() {
        let c = s[i];
        lemma_ident_end_bounds(s, i);
        if c == '"' || c == '\'' {
            lemma_string_end_bounds(s, i + 1, c);
        }
        if c == '/' && i + 1 < s.len() && s[i + 1] == '/' {
            lemma_comment_end_bounds(s, i + 2);
        }
        if c == '/' && i + 2 < s.len() && s[i + 1] == '*' && s[i + 2] == '*' {
            lemma_doc_end_bounds(s, i + 3);
        }
        if is_digit_char(c) {
            lemma_number_end_bounds(s, i, false);
            lemma_number_end_unfold(s, i, false);
        } else if c == '-' && i + 1 < s.len() && is_digit_char(s[i + 1]) {
            lemma_number_end_bounds(s, i + 1, false);
            lemma_number_end_unfold(s, i + 1, false);
        }
    }
}

/// A digit run starting on a digit ends strictly after it starts.
pub proof fn lemma_number_end_unfold(s: Seq<char>, i: int, has_dot: bool)
    requires
        0 <= i < s.len(),
        is_digit_char(s[i]),
    ensures
        number_end(s, i, has_dot) > i,
{
    lemma_number_end_bounds(s, i + 1, has_dot);
}

// ---------------------------------------------------------------------------
// The executable lexer
// ---------------------------------------------------------------------------

/// The streaming lexer over one input text.
pub struct Lexer {
    input: Vec<char>,
    position: usize,
    line: usize,
}

impl Lexer {
    /// The characters being scanned.
    pub closed spec fn spec_input(&self) -> Seq<char> {
        self.input@
    }

    /// The current scan position.
    pub closed spec fn spec_pos(&self) -> int {
        self.position as int
    }

    /// The current line counter.
    pub closed spec fn spec_line(&self) -> nat {
        self.line as nat
    }

    /// The lexer is positioned inside (or just past) its input.
    pub closed spec fn wf(&self) -> bool {
        self.position <= self.input@.len()
    }

    /// Builds a lexer over `input`, positioned at its start, on line 1.
    pub fn new(input: &str) -> (r: Lexer)
        ensures
            r.wf(),
            r.spec_input() == input@,
            r.spec_pos() == 0,
            r.spec_line() == 1,
    {
        let n = input.unicode_len();
        let mut chars: Vec<char> = Vec::new();
        let mut i: usize = 0;
        while i < n
            invariant
                n == input@.len(),
                i <= n,
                chars@ =~= input@.subrange(0, i as int),
            decreases n - i,
        {
            chars.push(input.get_char(i));
            i = i + 1;
        }
        proof {
            assert(chars@ =~= input@);
        }
        Lexer { input: chars, position: 0, line: 1 }
    }

    fn current_char(&self) -> (r: Option<char>)
        requires
            self.wf(),
        ensures
            self.spec_pos() < self.spec_input().len() ==> r == Some(
                self.spec_input()[self.spec_pos()],
            ),
            self.spec_pos() >= self.spec_input().len() ==> r is None,
    {
        if self.position < self.input.len() {
            Some(self.input[self.position])
        } else {
            None
        }
    }

    fn peek_char(&self) -> (r: Option<char>)
        requires
            self.wf(),
        ensures
            self.spec_pos() + 1 < self.spec_input().len() ==> r == Some(
                self.spec_input()[self.spec_pos() + 1],
            ),
            self.spec_pos() + 1 >= self.spec_input().len() ==> r is None,
    {
        if self.position < self.input.len() && self.position + 1 < self.input.len() {
            Some(self.input[self.position + 1])
        } else {
            None
        }
    }

    fn peek_char_at(&self, offset: usize) -> (r: Option<char>)
        requires
            self.wf(),
        ensures
            self.spec_pos() + offset < self.spec_input().len() ==> r == Some(
                self.spec_input()[self.spec_pos() + offset],
            ),
            self.spec_pos() + offset >= self.spec_input().len() ==> r is None,
    {
        if offset < self.input.len() - self.position {
            Some(self.input[self.position + offset])
        } else {
            None
        }
    }

    fn advance(&mut self)
        requires
            old(self).wf(),
        ensures
            final(self).wf(),
            final(self).spec_input() == old(self).spec_input(),
            old(self).spec_pos() < old(self).spec_input().len() ==> {
                &&& final(self).spec_pos() == old(self).spec_pos() + 1
                &&& final(self).spec_line() == (
                if old(self).spec_input()[old(self).spec_pos()] == '\n' {
                    bump_line(old(self).spec_line())
                } else {
                    old(self).spec_line()
                })
            },
            old(self).spec_pos() >= old(self).spec_input().len() ==> *final(self) == *old(self),
    {
        if self.position < self.input.len() {
            let c = self.input[self.position];
            if c == '\n' {
                if self.line < usize::MAX {
                    self.line = self.line + 1;
                }
            }
            self.position = self.position + 1;
        }
    }

    fn skip_whitespace(&mut self)
        requires
            old(self).wf(),
        ensures
            final(self).wf(),
            final(self).spec_input() == old(self).spec_input(),
            final(self).spec_pos() == skip_ws_pos(old(self).spec_input(), old(self).spec_pos()),
            final(self).spec_line() == lines_across(
                old(self).spec_input(),
                old(self).spec_pos(),
                final(self).spec_pos(),
                old(self).spec_line(),
            ),
    {
        loop
            invariant
                self.wf(),
                self.spec_input() == old(self).spec_input(),
                old(self).spec_pos() <= self.spec_pos(),
                skip_ws_pos(self.spec_input(), self.spec_pos()) == skip_ws_pos(
                    old(self).spec_input(),
                    old(self).spec_pos(),
                ),
                self.spec_line() == lines_across(
                    old(self).spec_input(),
                    old(self).spec_pos(),
                    self.spec_pos(),
                    old(self).spec_line(),
                ),
            decreases self.spec_input().len() - self.spec_pos(),
        {
            match self.current_char() {
                Some(c) => {
                    if c.is_whitespace() {
                        proof {
                            lemma_lines_across_snoc(
                                self.spec_input(),
                                old(self).spec_pos(),
                                self.spec_pos(),
                                old(self).spec_line(),
                            );
                        }
                        self.advance();
                        proof {
                            assert(skip_ws_pos(self.spec_input(), self.spec_pos()) == skip_ws_pos(
                                old(self).spec_input(),
                                old(self).spec_pos(),
                            ));
                        }
                    } else {
                        break;
                    }
                },
                None => {
                    break;
                },
            }
        }
    }

    fn read_identifier(&mut self) -> (r: String)
        requires
            old(self).wf(),
        ensures
            final(self).wf(),
            final(self).spec_input() == old(self).spec_input(),
            final(self).spec_pos() == ident_end(old(self).spec_input(), old(self).spec_pos()),
            final(self).spec_line() == old(self).spec_line(),
            r@ == old(self).spec_input().subrange(old(self).spec_pos(), final(self).spec_pos()),
    {
        let mut out: String = String::new();
        loop
            invariant
                self.wf(),
                self.spec_input() == old(self).spec_input(),
                old(self).spec_pos() <= self.spec_pos(),
                self.spec_line() == old(self).spec_line(),
                ident_end(self.spec_input(), self.spec_pos()) == ident_end(
                    old(self).spec_input(),
                    old(self).spec_pos(),
                ),
                out@ == old(self).spec_input().subrange(old(self).spec_pos(), self.spec_pos()),
            decreases self.spec_input().len() - self.spec_pos(),
        {
            match self.current_char() {
                Some(c) => {
                    if ident_char_exec(c) {
                        out.push(c);
                        self.advance();
                        proof {
                            assert(out@ =~= old(self).spec_input().subrange(
                                old(self).spec_pos(),
                                self.spec_pos(),
                            ));
                        }
                    } else {
                        break;
                    }
                },
                None => {
                    break;
                },
            }
        }
        out
    }

    fn read_number(&mut self) -> (r: String)
        requires
            old(self).wf(),
            old(self).spec_pos() < old(self).spec_input().len(),
        ensures
            final(self).wf(),
            final(self).spec_input() == old(self).spec_input(),
            final(self).spec_line() == old(self).spec_line(),
            final(self).spec_pos() == number_end(
                old(self).spec_input(),
                if old(self).spec_input()[old(self).spec_pos()] == '-' {
                    old(self).spec_pos() + 1
                } else {
                    old(self).spec_pos()
                },
                false,
            ),
            r@ == old(self).spec_input().subrange(old(self).spec_pos(), final(self).spec_pos()),
    {
        let mut out: String = String::new();
        let mut has_dot = false;
        let ghost s = self.spec_input();
        let ghost pos0 = self.spec_pos();
        let neg = match self.current_char() {
            Some(c) => c == '-',
            None => false,
        };
        if neg {
            out.push('-');
            self.advance();
            proof {
                assert(out@ =~= s.subrange(pos0, self.spec_pos()));
            }
        }
        let ghost start = self.spec_pos();
        loop
            invariant
                self.wf(),
                self.spec_input() == s,
                start <= self.spec_pos(),
                pos0 <= start <= pos0 + 1,
                (s[pos0] == '-') == (start == pos0 + 1),
                self.spec_line() == old(self).spec_line(),
                number_end(s, self.spec_pos(), has_dot) == number_end(s, start, false),
                out@ == s.subrange(pos0, self.spec_pos()),
            decreases s.len() - self.spec_pos(),
        {
            match self.current_char() {
                Some(c) => {
                    if digit_char_exec(c) {
                        out.push(c);
                        self.advance();
                        proof {
                            assert(out@ =~= s.subrange(pos0, self.spec_pos()));
                        }
                    } else if c == '.' && !has_dot {
                        has_dot = true;
                        out.push(c);
                        self.advance();
                        proof {
                            assert(out@ =~= s.subrange(pos0, self.spec_pos()));
                        }
                    } else {
                        break;
                    }
                },
                None => {
                    break;
                },
            }
        }
        out
    }

    fn read_string(&mut self) -> (r: String)
        requires
            old(self).wf(),
            old(self).spec_pos() < old(self).spec_input().len(),
        ensures
            final(self).wf(),
            final(self).spec_input() == old(self).spec_input(),
            ({
                let s = old(self).spec_input();
                let q = s[old(self).spec_pos()];
                let e = string_end(s, old(self).spec_pos() + 1, q);
                &&& final(self).spec_pos() == (if e < s.len() {
                    e + 1
                } else {
                    e
                })
                &&& r@ == s.subrange(old(self).spec_pos() + 1, e)
                &&& final(self).spec_line() == lines_across(
                    s,
                    old(self).spec_pos(),
                    final(self).spec_pos(),
                    old(self).spec_line(),
                )
            }),
    {
        let ghost s = self.spec_input();
        let ghost pos0 = self.spec_pos();
        let quote = match self.current_char() {
            Some(c) => c,
            None => ' ',
        };
        proof {
            lemma_lines_across_snoc(s, pos0, pos0, old(self).spec_line());
        }
        self.advance();
        let mut out: String = String::new();
        loop
            invariant
                self.wf(),
                self.spec_input() == s,
                pos0 + 1 <= self.spec_pos(),
                quote == s[pos0],
                string_end(s, self.spec_pos(), quote) == string_end(s, pos0 + 1, quote),
                out@ == s.subrange(pos0 + 1, self.spec_pos()),
                self.spec_line() == lines_across(s, pos0, self.spec_pos(), old(self).spec_line()),
            decreases s.len() - self.spec_pos(),
        {
            match self.current_char() {
                Some(c) => {
                    proof {
                        lemma_lines_across_snoc(s, pos0, self.spec_pos(), old(self).spec_line());
                    }
                    if c == quote {
                        self.advance();
                        break;
                    }
                    out.push(c);
                    self.advance();
                    proof {
                        assert(out@ =~= s.subrange(pos0 + 1, self.spec_pos()));
                    }
                },
                None => {
                    break;
                },
            }
        }
        out
    }

    fn read_comment(&mut self) -> (r: String)
        requires
            old(self).wf(),
            old(self).spec_pos() + 1 < old(self).spec_input().len(),
            old(self).spec_input()[old(self).spec_pos()] == '/',
            old(self).spec_input()[old(self).spec_pos() + 1] == '/',
        ensures
            final(self).wf(),
            final(self).spec_input() == old(self).spec_input(),
            final(self).spec_line() == old(self).spec_line(),
            final(self).spec_pos() == comment_end(
                old(self).spec_input(),
                old(self).spec_pos() + 2,
            ),
            r@ == spec_trim(
                old(self).spec_input().subrange(
                    old(self).spec_pos() + 2,
                    final(self).spec_pos(),
                ),
            ),
    {
        let ghost s = self.spec_input();
        let ghost pos0 = self.spec_pos();
        self.advance();
        self.advance();
        let mut raw: Vec<char> = Vec::new();
        loop
            invariant
                self.wf(),
                self.spec_input() == s,
                pos0 + 2 <= self.spec_pos(),
                self.spec_line() == old(self).spec_line(),
                comment_end(s, self.spec_pos()) == comment_end(s, pos0 + 2),
                raw@ == s.subrange(pos0 + 2, self.spec_pos()),
            decreases s.len() - self.spec_pos(),
        {
            match self.current_char() {
                Some(c) => {
                    if c == '\n' {
                        break;
                    }
                    raw.push(c);
                    self.advance();
                    proof {
                        assert(raw@ =~= s.subrange(pos0 + 2, self.spec_pos()));
                    }
                },
                None => {
                    break;
                },
            }
        }
        trim_vec_to_string(&raw)
    }

    fn read_doc_comment(&mut self) -> (r: String)
        requires
            old(self).wf(),
            old(self).spec_pos() + 2 < old(self).spec_input().len(),
            old(self).spec_input()[old(self).spec_pos()] == '/',
            old(self).spec_input()[old(self).spec_pos() + 1] == '*',
            old(self).spec_input()[old(self).spec_pos() + 2] == '*',
        ensures
            final(self).wf(),
            final(self).spec_input() == old(self).spec_input(),
            ({
                let s = old(self).spec_input();
                let e = doc_end(s, old(self).spec_pos() + 3);
                &&& final(self).spec_pos() == (if e < s.len() {
                    e + 2
                } else {
                    e
                })
                &&& r@ == spec_clean_doc(s.subrange(old(self).spec_pos() + 3, e))
                &&& final(self).spec_line() == lines_across(
                    s,
                    old(self).spec_pos(),
                    final(self).spec_pos(),
                    old(self).spec_line(),
                )
            }),
    {
        let ghost s = self.spec_input();
        let ghost pos0 = self.spec_pos();
        proof {
            lemma_lines_across_snoc(s, pos0, pos0, old(self).spec_line());
        }
        self.advance();
        proof {
            lemma_lines_across_snoc(s, pos0, pos0 + 1, old(self).spec_line());
        }
        self.advance();
        proof {
            lemma_lines_across_snoc(s, pos0, pos0 + 2, old(self).spec_line());
        }
        self.advance();
        let mut raw: Vec<char> = Vec::new();
        loop
            invariant
                self.wf(),
                self.spec_input() == s,
                pos0 + 3 <= self.spec_pos(),
                doc_end(s, self.spec_pos()) == doc_end(s, pos0 + 3),
                raw@ == s.subrange(pos0 + 3, self.spec_pos()),
                self.spec_line() == lines_across(s, pos0, self.spec_pos(), old(self).spec_line()),
            decreases s.len() - self.spec_pos(),
        {
            match self.current_char() {
                Some(c) => {
                    if c == '*' && self.peek_char() == Some('/') {
                        proof {
                            lemma_lines_across_snoc(
                                s,
                                pos0,
                                self.spec_pos(),
                                old(self).spec_line(),
                            );
                        }
                        self.advance();
                        proof {
                            lemma_lines_across_snoc(
                                s,
                                pos0,
                                self.spec_pos(),
                                old(self).spec_line(),
                            );
                        }
                        self.advance();
                        break;
                    }
                    raw.push(c);
                    proof {
                        lemma_lines_across_snoc(s, pos0, self.spec_pos(), old(self).spec_line());
                    }
                    self.advance();
                    proof {
                        assert(raw@ =~= s.subrange(pos0 + 3, self.spec_pos()));
                    }
                },
                None => {
                    break;
                },
            }
        }
        clean_doc_exec(&raw)
    }

    /// Scans and returns the next token, advancing past it; after the input
    /// is exhausted it returns an end-of-input token forever.
    pub fn next_token(&mut self) -> (t: Token)
        requires
            old(self).wf(),
        ensures
            final(self).wf(),
            final(self).spec_input() == old(self).spec_input(),
            ({
                let step = spec_next_token(
                    old(self).spec_input(),
                    old(self).spec_pos(),
                    old(self).spec_line(),
                );
                &&& t@ == step.token
                &&& final(self).spec_pos() == step.pos
                &&& final(self).spec_line() == step.line
            }),
    {
        let ghost s = self.spec_input();
        let ghost pos0 = self.spec_pos();
        let ghost line0 = self.spec_line();
        self.skip_whitespace();
        let line = self.line_number();
        let ghost step = spec_next_token(s, pos0, line0);
        match self.current_char() {
            None => {
                let t = Token { token_type: TokenType::Eof, literal: String::new(), line };
                proof {
                    assert(t@ =~= step.token);
                }
                t
            },
            Some(c) => {
                if c == '{' {
                    self.advance();
                    let t = Token { token_type: TokenType::LBrace, literal: one_char_string(c), line };
                    proof {
                        assert(t@ =~= step.token);
                    }
                    t
                } else if c == '}' {
                    self.advance();
                    let t = Token { token_type: TokenType::RBrace, literal: one_char_string(c), line };
                    proof {
                        assert(t@ =~= step.token);
                    }
                    t
                } else if c == '(' {
                    self.advance();
                    let t = Token { token_type: TokenType::LParen, literal: one_char_string(c), line };
                    proof {
                        assert(t@ =~= step.token);
                    }
                    t
                } else if c == ')' {
                    self.advance();
                    let t = Token { token_type: TokenType::RParen, literal: one_char_string(c), line };
                    proof {
                        assert(t@ =~= step.token);
                    }
                    t
                } else if c == '?' {
                    self.advance();
                    let t = Token {
                        token_type: TokenType::Question,
                        literal: one_char_string(c),
                        line,
                    };
                    proof {
                        assert(t@ =~= step.token);
                    }
                    t
                } else if c == '@' {
                    self.advance();
                    let t = Token { token_type: TokenType::At, literal: one_char_string(c), line };
                    proof {
                        assert(t@ =~= step.token);
                    }
                    t
                } else if c == '"' || c == '\'' {
                    let lit = self.read_string();
                    let t = Token { token_type: TokenType::String, literal: lit, line };
                    proof {
                        assert(t@ =~= step.token);
                    }
                    t
                } else if c == '/' && self.peek_char() == Some('/') {
                    let lit = self.read_comment();
                    let t = Token { token_type: TokenType::Comment, literal: lit, line };
                    proof {
                        assert(t@ =~= step.token);
                    }
                    t
                } else if c == '/' && self.peek_char() == Some('*') && self.peek_char_at(2)
                    == Some('*') {
                    let lit = self.read_doc_comment();
                    let t = Token { token_type: TokenType::DocComment, literal: lit, line };
                    proof {
                        assert(t@ =~= step.token);
                    }
                    t
                } else if digit_char_exec(c) || (c == '-' && match self.peek_char() {
                    Some(p) => digit_char_exec(p),
                    None => false,
                }) {
                    let lit = self.read_number();
                    let t = Token { token_type: TokenType::Number, literal: lit, line };
                    proof {
                        assert(t@ =~= step.token);
                    }
                    t
                } else {
                    let ghost ip = self.spec_pos();
                    let lit = self.read_identifier();
                    proof {
                        lemma_ident_end_bounds(s, ip);
                    }
                    if lit.as_str().is_empty() {
                        // A character outside every class: consume it as a
                        // one-character identifier so the scan always advances.
                        proof {
                            lemma_lines_across_snoc(s, self.spec_pos(), self.spec_pos(), self.spec_line());
                        }
                        self.advance();
                        let t = Token {
                            token_type: TokenType::Ident,
                            literal: one_char_string(c),
                            line,
                        };
                        proof {
                            assert(t@ =~= step.token);
                        }
                        t
                    } else {
                        let t = Token { token_type: TokenType::Ident, literal: lit, line };
                        proof {
                            assert(t@ =~= step.token);
                        }
                        t
                    }
                }
            },
        }
    }

    /// The current line counter.
    pub fn line_number(&self) -> (r: usize)
        ensures
            r as nat == self.spec_line(),
    {
        self.line
    }

}

/// Stepping one more character extends the line count by that character.
pub proof fn lemma_lines_across_snoc(s: Seq<char>, i: int, j: int, l: nat)
    requires
        0 <= i <= j < s.len(),
    ensures
        lines_across(s, i, j + 1, l) == (if s[j] == '\n' {
            bump_line(lines_across(s, i, j, l))
        } else {
            lines_across(s, i, j, l)
        }),
    decreases j - i,
{
    if i < j {
        lemma_lines_across_snoc(s, i + 1, j, if s[i] == '\n' {
            bump_line(l)
        } else {
            l
        });
    } else {
        let l2: nat = if s[j] == '\n' {
            bump_line(l)
        } else {
            l
        };
        assert(lines_across(s, i, j, l) == l);
        assert(lines_across(s, j, j + 1, l) == lines_across(s, j + 1, j + 1, l2));
        assert(lines_across(s, j + 1, j + 1, l2) == l2);
    }
}


fn one_char_string(c: char) -> (r: String)
    ensures
        r@ == seq![c],
{
    let mut s = String::new();
    s.push(c);
    proof {
        assert(s@ =~= seq![c]);
    }
    s
}

pub fn trim_vec(v: &Vec<char>) -> (r: Vec<char>)
    ensures
        r@ == spec_trim(v@),
{
    let mut a: usize = 0;
    loop
        invariant
            a <= v@.len(),
            trim_start_idx(v@, a as int) == trim_start_idx(v@, 0),
        decreases v@.len() - a,
    {
        if a < v.len() {
            if v[a].is_whitespace() {
                a = a + 1;
            } else {
                break;
            }
        } else {
            break;
        }
    }
    let mut b: usize = v.len();
    loop
        invariant
            b <= v@.len(),
            trim_end_idx(v@, b as int) == trim_end_idx(v@, v@.len() as int),
        decreases b,
    {
        if b > 0 {
            if v[b - 1].is_whitespace() {
                b = b - 1;
            } else {
                break;
            }
        } else {
            break;
        }
    }
    if a <= b {
        let mut out: Vec<char> = Vec::new();
        let mut i: usize = a;
        while i < b
            invariant
                a <= i <= b <= v@.len(),
                out@ =~= v@.subrange(a as int, i as int),
            decreases b - i,
        {
            out.push(v[i]);
            i = i + 1;
        }
        proof {
            assert(out@ =~= spec_trim(v@));
        }
        out
    } else {
        let out: Vec<char> = Vec::new();
        proof {
            assert(out@ =~= spec_trim(v@));
        }
        out
    }
}

fn trim_vec_to_string(v: &Vec<char>) -> (r: String)
    ensures
        r@ == spec_trim(v@),
{
    let t = trim_vec(v);
    crate::strutil::string_from_chars(&t)
}

fn strip_stars_vec(v: &Vec<char>) -> (r: Vec<char>)
    ensures
        r@ == spec_strip_leading(v@, '*'),
{
    let mut a: usize = 0;
    loop
        invariant
            a <= v@.len(),
            strip_leading_idx(v@, a as int, '*') == strip_leading_idx(v@, 0, '*'),
        decreases v@.len() - a,
    {
        if a < v.len() {
            if v[a] == '*' {
                a = a + 1;
            } else {
                break;
            }
        } else {
            break;
        }
    }
    let mut out: Vec<char> = Vec::new();
    let mut i: usize = a;
    while i < v.len()
        invariant
            a <= i <= v@.len(),
            out@ =~= v@.subrange(a as int, i as int),
        decreases v@.len() - i,
    {
        out.push(v[i]);
        i = i + 1;
    }
    proof {
        assert(out@ =~= spec_strip_leading(v@, '*'));
    }
    out
}

fn clean_line_vec(v: &Vec<char>) -> (r: Vec<char>)
    ensures
        r@ == clean_doc_line(v@),
{
    let t1 = trim_vec(v);
    let st = strip_stars_vec(&t1);
    trim_vec(&st)
}

fn clean_doc_from_exec(v: &Vec<char>, i: usize) -> (r: String)
    requires
        i <= v@.len(),
    ensures
        r@ == spec_clean_doc_from(v@, i as int),
    decreases v@.len() - i,
{
    let mut e: usize = i;
    loop
        invariant
            i <= e <= v@.len(),
            comment_end(v@, e as int) == comment_end(v@, i as int),
        decreases v@.len() - e,
    {
        if e < v.len() {
            if v[e] == '\n' {
                break;
            }
            e = e + 1;
        } else {
            break;
        }
    }
    let mut line: Vec<char> = Vec::new();
    let mut k: usize = i;
    while k < e
        invariant
            i <= k <= e <= v@.len(),
            line@ =~= v@.subrange(i as int, k as int),
        decreases e - k,
    {
        line.push(v[k]);
        k = k + 1;
    }
    let head = clean_line_vec(&line);
    if e >= v.len() {
        crate::strutil::string_from_chars(&head)
    } else {
        let rest = clean_doc_from_exec(v, e + 1);
        if head.len() == 0 {
            rest
        } else if rest.as_str().is_empty() {
            crate::strutil::string_from_chars(&head)
        } else {
            let mut out = crate::strutil::string_from_chars(&head);
            out.push(' ');
            out.append(rest.as_str());
            proof {
                assert(out@ =~= spec_clean_doc_from(v@, i as int));
            }
            out
        }
    }
}

fn clean_doc_exec(v: &Vec<char>) -> (r: String)
    ensures
        r@ == spec_clean_doc(v@),
{
    clean_doc_from_exec(v, 0)
}

} // verus!
