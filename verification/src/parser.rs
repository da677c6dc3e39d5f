//! The recursive-descent parser: a token stream to a `RqcConfig` document,
//! or a single terminal parse error. The whole grammar is modelled by spec
//! functions over the token sequence; every parsing method returns exactly
//! what the model says.

use vstd::prelude::*;
use vstd::string::{StrSliceExecFns, StringExecFns};

use crate::ast::{
    lemma_view_category_list_push, lemma_view_field_list_push, spec_empty_config, view_field_list,
    view_opt_mock, view_opt_string, ApiBlock, CategoryBlock, ConfigBlock, Field, FieldType,
    HeaderDefinition, MethodBlock, MockValue, RqcConfig, SchemaBlock, SpecApiBlock,
    SpecCategoryBlock, SpecConfigBlock, SpecField, SpecHeaderDefinition, SpecMethodBlock,
    SpecMockValue, SpecRqcConfig, SpecSchemaBlock, SpecVariableDefinition, SpecWsBlock,
    SpecWsEvent, VariableDefinition, WsBlock, WsEvent,
};
use crate::lexer::{
    lemma_next_token_progress, spec_next_token, Lexer, SpecToken, Token, TokenType,
};
use crate::numfmt::{push_dec, spec_dec};
use crate::strutil::{string_eq, string_from_chars};

verus! {

// ---------------------------------------------------------------------------
// Errors
// ---------------------------------------------------------------------------

/// A terminal parse failure: an I/O problem reading a source, or a token
/// other than the one the grammar demands.
#[derive(Debug, PartialEq)]
pub enum ParseError {
    IoError(String),
    UnexpectedToken { expected: String, got: String, line: usize },
}

#[verifier::ext_equal]
pub ghost enum SpecParseError {
    IoError(Seq<char>),
    UnexpectedToken { expected: Seq<char>, got: Seq<char>, line: nat },
}

impl View for ParseError {
    type V = SpecParseError;

    open spec fn view(&self) -> SpecParseError {
        match self {
            ParseError::IoError(m) => SpecParseError::IoError(m@),
            ParseError::UnexpectedToken { expected, got, line } => {
                SpecParseError::UnexpectedToken {
                    expected: expected@,
                    got: got@,
                    line: *line as nat,
                }
            },
        }
    }
}

impl Clone for ParseError {
    fn clone(&self) -> (r: Self)
        ensures
            r == *self,
    {
        match self {
            ParseError::IoError(m) => ParseError::IoError(m.clone()),
            ParseError::UnexpectedToken { expected, got, line } => ParseError::UnexpectedToken {
                expected: expected.clone(),
                got: got.clone(),
                line: *line,
            },
        }
    }
}

/// The display name of a token kind, as it appears in error messages.
pub open spec fn spec_type_name(t: TokenType) -> Seq<char> {
    match t {
        TokenType::Ident => "Ident"@,
        TokenType::String => "String"@,
        TokenType::Number => "Number"@,
        TokenType::LBrace => "LBrace"@,
        TokenType::RBrace => "RBrace"@,
        TokenType::LParen => "LParen"@,
        TokenType::RParen => "RParen"@,
        TokenType::Question => "Question"@,
        TokenType::At => "At"@,
        TokenType::Comment => "Comment"@,
        TokenType::DocComment => "DocComment"@,
        TokenType::Eof => "Eof"@,
    }
}

fn kind_name(t: TokenType) -> (r: String)
    ensures
        r@ == spec_type_name(t),
{
    match t {
        TokenType::Ident => String::from_str("Ident"),
        TokenType::String => String::from_str("String"),
        TokenType::Number => String::from_str("Number"),
        TokenType::LBrace => String::from_str("LBrace"),
        TokenType::RBrace => String::from_str("RBrace"),
        TokenType::LParen => String::from_str("LParen"),
        TokenType::RParen => String::from_str("RParen"),
        TokenType::Question => String::from_str("Question"),
        TokenType::At => String::from_str("At"),
        TokenType::Comment => String::from_str("Comment"),
        TokenType::DocComment => String::from_str("DocComment"),
        TokenType::Eof => String::from_str("Eof"),
    }
}

/// The human-readable message of a parse error.
pub open spec fn spec_error_message(e: SpecParseError) -> Seq<char> {
    match e {
        SpecParseError::IoError(m) => "IO error: "@ + m,
        SpecParseError::UnexpectedToken { expected, got, line } => "Line "@ + spec_dec(line)
            + ": expected "@ + expected + ", got "@ + got,
    }
}

impl ParseError {
    /// Renders the error as one line of text.
    pub fn message(&self) -> (r: String)
        ensures
            r@ == spec_error_message(self@),
    {
        match self {
            ParseError::IoError(m) => {
                let mut s = String::from_str("IO error: ");
                s.append(m.as_str());
                s
            },
            ParseError::UnexpectedToken { expected, got, line } => {
                let mut s = String::from_str("Line ");
                push_dec(&mut s, *line as u64);
                s.append(": expected ");
                s.append(expected.as_str());
                s.append(", got ");
                s.append(got.as_str());
                proof {
                    assert(s@ =~= spec_error_message(self@));
                }
                s
            },
        }
    }
}

/// A parse result seen at the model level.
pub open spec fn res_of<T: View>(r: Result<T, ParseError>) -> Result<T::V, SpecParseError> {
    match r {
        Result::Ok(v) => Result::Ok(v@),
        Result::Err(e) => Result::Err(e@),
    }
}

// ---------------------------------------------------------------------------
// Token sequences
// ---------------------------------------------------------------------------

/// A well-formed token stream: non-empty, ending in its only end-of-input
/// token.
pub open spec fn wf_tokens(toks: Seq<SpecToken>) -> bool {
    &&& toks.len() > 0
    &&& toks[toks.len() - 1].token_type == TokenType::Eof
    &&& forall|j: int| 0 <= j < toks.len() - 1 ==> (#[trigger] toks[j]).token_type != TokenType::Eof
}

/// The position after consuming the token at `pos`: the scan never moves
/// past the end-of-input token.
pub open spec fn adv(toks: Seq<SpecToken>, pos: int) -> int {
    if 0 <= pos < toks.len() && toks[pos].token_type != TokenType::Eof {
        pos + 1
    } else {
        pos
    }
}

/// The token stream of an input text: every token `next_token` yields, up to
/// and including the first end-of-input token.
pub open spec fn spec_tokens(s: Seq<char>, pos: int, line: nat) -> Seq<SpecToken>
    decreases s.len() - pos via spec_tokens_dec
{
    if 0 <= pos <= s.len() {
        let step = spec_next_token(s, pos, line);
        if step.token.token_type == TokenType::Eof {
            seq![step.token]
        } else {
            seq![step.token] + spec_tokens(s, step.pos, step.line)
        }
    } else {
        Seq::empty()
    }
}

#[via_fn]
proof fn spec_tokens_dec(s: Seq<char>, pos: int, line: nat) {
    if 0 <= pos <= s.len() {
        lemma_next_token_progress(s, pos, line);
    }
}

/// The token stream of a whole document, as the parser sees it.
pub open spec fn spec_document_tokens(s: Seq<char>) -> Seq<SpecToken> {
    spec_tokens(s, 0, 1)
}

/// Token streams produced by the lexer are well formed.
pub proof fn lemma_spec_tokens_wf(s: Seq<char>, pos: int, line: nat)
    requires
        0 <= pos <= s.len(),
    ensures
        wf_tokens(spec_tokens(s, pos, line)),
    decreases s.len() - pos,
{
    lemma_next_token_progress(s, pos, line);
    let step = spec_next_token(s, pos, line);
    if step.token.token_type != TokenType::Eof {
        lemma_spec_tokens_wf(s, step.pos, step.line);
    }
}

// ---------------------------------------------------------------------------
// Small text helpers used by the grammar
// ---------------------------------------------------------------------------

/// The first index at or after `i` whose character is `sep`, or the length.
pub open spec fn sep_end(s: Seq<char>, i: int, sep: char) -> int
    decreases s.len() - i,
{
    if 0 <= i < s.len() {
        if s[i] == sep {
            i
        } else {
            sep_end(s, i + 1, sep)
        }
    } else {
        s.len() as int
    }
}

pub proof fn lemma_sep_end_bounds(s: Seq<char>, i: int, sep: char)
    requires
        0 <= i <= s.len(),
    ensures
        i <= sep_end(s, i, sep) <= s.len(),
    decreases s.len() - i,
{
    if 0 <= i < s.len() && s[i] != sep {
        lemma_sep_end_bounds(s, i + 1, sep);
    }
}

/// A comma-separated list, each entry trimmed, empty entries dropped.
pub open spec fn spec_split_urls(s: Seq<char>) -> Seq<Seq<char>>
    decreases s.len() via spec_split_urls_dec
{
    let e = sep_end(s, 0, ',');
    let head = crate::lexer::spec_trim(s.subrange(0, e));
    if e >= s.len() {
        if head.len() == 0 {
            Seq::empty()
        } else {
            seq![head]
        }
    } else {
        let rest = spec_split_urls(s.subrange(e + 1, s.len() as int));
        if head.len() == 0 {
            rest
        } else {
            seq![head] + rest
        }
    }
}

#[via_fn]
proof fn spec_split_urls_dec(s: Seq<char>) {
    lemma_sep_end_bounds(s, 0, ',');
}

fn split_urls_from(v: &Vec<char>, i: usize) -> (r: Vec<String>)
    requires
        i <= v@.len(),
    ensures
        crate::ast::view_string_list(r@) == spec_split_urls(v@.subrange(i as int, v@.len() as int)),
    decreases v@.len() - i,
{
    let ghost tail = v@.subrange(i as int, v@.len() as int);
    let mut e: usize = i;
    loop
        invariant
            i <= e <= v@.len(),
            sep_end(v@, e as int, ',') == sep_end(v@, i as int, ','),
        decreases v@.len() - e,
    {
        if e < v.len() {
            if v[e] == ',' {
                break;
            }
            e = e + 1;
        } else {
            break;
        }
    }
    proof {
        lemma_sep_end_shift(v@, i as int, e as int, ',');
    }
    let mut entry: Vec<char> = Vec::new();
    let mut k: usize = i;
    while k < e
        invariant
            i <= k <= e <= v@.len(),
            entry@ =~= v@.subrange(i as int, k as int),
        decreases e - k,
    {
        entry.push(v[k]);
        k = k + 1;
    }
    let head = crate::lexer::trim_vec(&entry);
    proof {
        assert(entry@ =~= tail.subrange(0, e - i));
    }
    if e >= v.len() {
        let mut out: Vec<String> = Vec::new();
        if head.len() > 0 {
            out.push(string_from_chars(&head));
        }
        proof {
            assert(sep_end(tail, 0, ',') == e - i);
            assert(entry@ == tail.subrange(0, e - i));
            assert(head@ == crate::lexer::spec_trim(tail.subrange(0, e - i)));
            if head@.len() == 0 {
                assert(spec_split_urls(tail) == Seq::<Seq<char>>::empty());
                assert(out@.len() == 0);
            } else {
                assert(spec_split_urls(tail) == seq![head@]);
                assert(out@.len() == 1);
                assert(out@[0]@ == head@);
            }
            assert(crate::ast::view_string_list(out@) =~~= spec_split_urls(tail));
        }
        out
    } else {
        let rest = split_urls_from(v, e + 1);
        proof {
            assert(v@.subrange(e + 1 as int, v@.len() as int) =~= tail.subrange(
                e - i + 1,
                tail.len() as int,
            ));
        }
        if head.len() > 0 {
            let mut out: Vec<String> = Vec::new();
            out.push(string_from_chars(&head));
            let mut j: usize = 0;
            while j < rest.len()
                invariant
                    j <= rest@.len(),
                    out@.len() == j + 1,
                    out@[0]@ == crate::lexer::spec_trim(tail.subrange(0, e - i)),
                    forall|m: int| 1 <= m <= j ==> #[trigger] out@[m]@ == rest@[m - 1]@,
                decreases rest@.len() - j,
            {
                out.push(rest[j].clone());
                j = j + 1;
            }
            proof {
                assert(crate::ast::view_string_list(out@) =~~= spec_split_urls(tail));
            }
            out
        } else {
            proof {
                assert(crate::ast::view_string_list(rest@) =~~= spec_split_urls(tail));
            }
            rest
        }
    }
}

/// Finding a separator is unaffected by where the scan started.
proof fn lemma_sep_end_shift(s: Seq<char>, i: int, e: int, sep: char)
    requires
        0 <= i <= e <= s.len(),
        sep_end(s, e, sep) == sep_end(s, i, sep),
        e < s.len() ==> s[e] == sep,
        e == s.len() || s[e] == sep,
    ensures
        sep_end(s.subrange(i, s.len() as int), 0, sep) == e - i,
    decreases e - i,
{
    assert forall|k: int| 0 <= k < e - i implies s.subrange(i, s.len() as int)[k] != sep by {
        lemma_sep_end_no_sep(s, i, e, sep, i + k);
    }
    lemma_sep_end_scan(s.subrange(i, s.len() as int), 0, e - i, sep);
}

/// Characters strictly before the separator position are not separators.
proof fn lemma_sep_end_no_sep(s: Seq<char>, i: int, e: int, sep: char, k: int)
    requires
        0 <= i <= e <= s.len(),
        sep_end(s, i, sep) == sep_end(s, e, sep),
        e == s.len() || s[e] == sep,
        i <= k < e,
    ensures
        s[k] != sep,
    decreases k - i,
{
    lemma_sep_end_bounds(s, e, sep);
    if s[i] == sep {
        assert(sep_end(s, i, sep) == i);
        assert(sep_end(s, e, sep) >= e);
    } else {
        if k > i {
            lemma_sep_end_no_sep(s, i + 1, e, sep, k);
        }
    }
}

/// If no separator occurs before `e` and `e` holds one (or is the end),
/// the scan from `i` stops at `e`.
proof fn lemma_sep_end_scan(s: Seq<char>, i: int, e: int, sep: char)
    requires
        0 <= i <= e <= s.len(),
        forall|k: int| i <= k < e ==> s[k] != sep,
        e == s.len() || s[e] == sep,
    ensures
        sep_end(s, i, sep) == e,
    decreases e - i,
{
    if i < e {
        lemma_sep_end_scan(s, i + 1, e, sep);
    }
}

/// `s` with every leading and trailing occurrence of `c` removed.
pub open spec fn spec_strip_edges(s: Seq<char>, c: char) -> Seq<char> {
    let a = crate::lexer::strip_leading_idx(s, 0, c);
    let b = strip_trailing_idx(s, s.len() as int, c);
    if a <= b {
        s.subrange(a, b)
    } else {
        Seq::empty()
    }
}

/// One past the last index not holding `c`, scanning down from `j`.
pub open spec fn strip_trailing_idx(s: Seq<char>, j: int, c: char) -> int
    decreases j,
{
    if 0 < j <= s.len() && s[j - 1] == c {
        strip_trailing_idx(s, j - 1, c)
    } else {
        j
    }
}

fn strip_edges(v: &Vec<char>, c: char) -> (r: String)
    ensures
        r@ == spec_strip_edges(v@, c),
{
    let mut a: usize = 0;
    loop
        invariant
            a <= v@.len(),
            crate::lexer::strip_leading_idx(v@, a as int, c) == crate::lexer::strip_leading_idx(
                v@,
                0,
                c,
            ),
        decreases v@.len() - a,
    {
        if a < v.len() {
            if v[a] == c {
                a = a + 1;
            } else {
                break;
            }
        } else {
            break;
        }
    }
    let mut b: usize = v.len();
    loop
        invariant
            b <= v@.len(),
            strip_trailing_idx(v@, b as int, c) == strip_trailing_idx(v@, v@.len() as int, c),
        decreases b,
    {
        if b > 0 {
            if v[b - 1] == c {
                b = b - 1;
            } else {
                break;
            }
        } else {
            break;
        }
    }
    if a <= b {
        let mut out: Vec<char> = Vec::new();
        let mut i: usize = a;
        while i < b
            invariant
                a <= i <= b <= v@.len(),
                out@ =~= v@.subrange(a as int, i as int),
            decreases b - i,
        {
            out.push(v[i]);
            i = i + 1;
        }
        proof {
            assert(out@ =~= spec_strip_edges(v@, c));
        }
        string_from_chars(&out)
    } else {
        proof {
            assert(Seq::<char>::empty() =~= spec_strip_edges(v@, c));
        }
        String::new()
    }
}

fn string_to_chars(s: &String) -> (r: Vec<char>)
    ensures
        r@ == s@,
{
    let n = s.as_str().unicode_len();
    let mut out: Vec<char> = Vec::new();
    let mut i: usize = 0;
    while i < n
        invariant
            n == s@.len(),
            i <= n,
            out@ =~= s@.subrange(0, i as int),
        decreases n - i,
    {
        out.push(s.as_str().get_char(i));
        i = i + 1;
    }
    proof {
        assert(out@ =~= s@);
    }
    out
}

// ---------------------------------------------------------------------------
// ASCII case folding (used for HTTP verbs and OpenAPI tags)
// ---------------------------------------------------------------------------

/// The ASCII lowercase counterpart of `c`.
pub open spec fn lower_char(c: char) -> char {
    if c == 'A' {
        'a'
    } else if c == 'B' {
        'b'
    } else if c == 'C' {
        'c'
    } else if c == 'D' {
        'd'
    } else if c == 'E' {
        'e'
    } else if c == 'F' {
        'f'
    } else if c == 'G' {
        'g'
    } else if c == 'H' {
        'h'
    } else if c == 'I' {
        'i'
    } else if c == 'J' {
        'j'
    } else if c == 'K' {
        'k'
    } else if c == 'L' {
        'l'
    } else if c == 'M' {
        'm'
    } else if c == 'N' {
        'n'
    } else if c == 'O' {
        'o'
    } else if c == 'P' {
        'p'
    } else if c == 'Q' {
        'q'
    } else if c == 'R' {
        'r'
    } else if c == 'S' {
        's'
    } else if c == 'T' {
        't'
    } else if c == 'U' {
        'u'
    } else if c == 'V' {
        'v'
    } else if c == 'W' {
        'w'
    } else if c == 'X' {
        'x'
    } else if c == 'Y' {
        'y'
    } else if c == 'Z' {
        'z'
    } else {
        c
    }
}

/// The ASCII uppercase counterpart of `c`.
pub open spec fn upper_char(c: char) -> char {
    if c == 'a' {
        'A'
    } else if c == 'b' {
        'B'
    } else if c == 'c' {
        'C'
    } else if c == 'd' {
        'D'
    } else if c == 'e' {
        'E'
    } else if c == 'f' {
        'F'
    } else if c == 'g' {
        'G'
    } else if c == 'h' {
        'H'
    } else if c == 'i' {
        'I'
    } else if c == 'j' {
        'J'
    } else if c == 'k' {
        'K'
    } else if c == 'l' {
        'L'
    } else if c == 'm' {
        'M'
    } else if c == 'n' {
        'N'
    } else if c == 'o' {
        'O'
    } else if c == 'p' {
        'P'
    } else if c == 'q' {
        'Q'
    } else if c == 'r' {
        'R'
    } else if c == 's' {
        'S'
    } else if c == 't' {
        'T'
    } else if c == 'u' {
        'U'
    } else if c == 'v' {
        'V'
    } else if c == 'w' {
        'W'
    } else if c == 'x' {
        'X'
    } else if c == 'y' {
        'Y'
    } else if c == 'z' {
        'Z'
    } else {
        c
    }
}

pub fn lower_char_exec(c: char) -> (r: char)
    ensures
        r == lower_char(c),
{
    let u = c as u32;
    if 65 <= u && u <= 90 {
        match c {
            'A' => 'a',
            'B' => 'b',
            'C' => 'c',
            'D' => 'd',
            'E' => 'e',
            'F' => 'f',
            'G' => 'g',
            'H' => 'h',
            'I' => 'i',
            'J' => 'j',
            'K' => 'k',
            'L' => 'l',
            'M' => 'm',
            'N' => 'n',
            'O' => 'o',
            'P' => 'p',
            'Q' => 'q',
            'R' => 'r',
            'S' => 's',
            'T' => 't',
            'U' => 'u',
            'V' => 'v',
            'W' => 'w',
            'X' => 'x',
            'Y' => 'y',
            _ => 'z',
        }
    } else {
        c
    }
}

fn upper_char_exec(c: char) -> (r: char)
    ensures
        r == upper_char(c),
{
    let u = c as u32;
    if 97 <= u && u <= 122 {
        match c {
            'a' => 'A',
            'b' => 'B',
            'c' => 'C',
            'd' => 'D',
            'e' => 'E',
            'f' => 'F',
            'g' => 'G',
            'h' => 'H',
            'i' => 'I',
            'j' => 'J',
            'k' => 'K',
            'l' => 'L',
            'm' => 'M',
            'n' => 'N',
            'o' => 'O',
            'p' => 'P',
            'q' => 'Q',
            'r' => 'R',
            's' => 'S',
            't' => 'T',
            'u' => 'U',
            'v' => 'V',
            'w' => 'W',
            'x' => 'X',
            'y' => 'Y',
            _ => 'Z',
        }
    } else {
        c
    }
}

/// `s` with each ASCII letter lowercased.
pub open spec fn spec_ascii_lower(s: Seq<char>) -> Seq<char> {
    s.map_values(|c: char| lower_char(c))
}

/// `s` with each ASCII letter uppercased.
pub open spec fn spec_ascii_upper(s: Seq<char>) -> Seq<char> {
    s.map_values(|c: char| upper_char(c))
}

/// Lowercases each ASCII letter of `s`.
pub fn ascii_lower(s: &str) -> (r: String)
    ensures
        r@ == spec_ascii_lower(s@),
{
    let n = s.unicode_len();
    let mut out = String::new();
    let mut i: usize = 0;
    while i < n
        invariant
            n == s@.len(),
            i <= n,
            out@ =~= s@.subrange(0, i as int).map_values(|c: char| lower_char(c)),
        decreases n - i,
    {
        out.push(lower_char_exec(s.get_char(i)));
        i = i + 1;
        proof {
            assert(out@ =~= s@.subrange(0, i as int).map_values(|c: char| lower_char(c)));
        }
    }
    proof {
        assert(s@.subrange(0, n as int) =~= s@);
        assert(out@ =~= spec_ascii_lower(s@));
    }
    out
}

/// Uppercases each ASCII letter of `s`.
pub fn ascii_upper(s: &str) -> (r: String)
    ensures
        r@ == spec_ascii_upper(s@),
{
    let n = s.unicode_len();
    let mut out = String::new();
    let mut i: usize = 0;
    while i < n
        invariant
            n == s@.len(),
            i <= n,
            out@ =~= s@.subrange(0, i as int).map_values(|c: char| upper_char(c)),
        decreases n - i,
    {
        out.push(upper_char_exec(s.get_char(i)));
        i = i + 1;
        proof {
            assert(out@ =~= s@.subrange(0, i as int).map_values(|c: char| upper_char(c)));
        }
    }
    proof {
        assert(s@.subrange(0, n as int) =~= s@);
        assert(out@ =~= spec_ascii_upper(s@));
    }
    out
}

// ---------------------------------------------------------------------------
// The parser
// ---------------------------------------------------------------------------

/// The recursive-descent parser over one document's token stream.
pub struct Parser {
    tokens: Vec<Token>,
    pos: usize,
}

/// The model of a token vector.
pub open spec fn views_of(tokens: Seq<Token>) -> Seq<SpecToken> {
    tokens.map_values(|t: Token| t@)
}

impl Parser {
    /// The token stream being parsed.
    pub closed spec fn toks(&self) -> Seq<SpecToken> {
        views_of(self.tokens@)
    }

    /// The current position in the token stream.
    pub closed spec fn spec_pos(&self) -> int {
        self.pos as int
    }

    /// How many tokens remain.
    pub closed spec fn spec_span(&self) -> int {
        self.tokens@.len() - self.pos
    }

    /// The parser always points at a token of a well-formed stream.
    pub closed spec fn wf(&self) -> bool {
        wf_tokens(self.toks()) && self.pos < self.tokens@.len()
    }

    /// The token under the cursor.
    pub open spec fn cur(&self) -> SpecToken {
        self.toks()[self.spec_pos()]
    }

    /// Builds a parser over `input` by scanning its whole token stream.
    pub fn new(input: &str) -> (r: Parser)
        ensures
            r.wf(),
            r.toks() == spec_document_tokens(input@),
            r.spec_pos() == 0,
    {
        let mut lexer = Lexer::new(input);
        let mut tokens: Vec<Token> = Vec::new();
        loop
            invariant
                lexer.wf(),
                lexer.spec_input() == input@,
                0 <= lexer.spec_pos() <= input@.len(),
                spec_document_tokens(input@) =~= views_of(tokens@) + spec_tokens(
                    input@,
                    lexer.spec_pos(),
                    lexer.spec_line(),
                ),
                forall|j: int|
                    0 <= j < tokens@.len() ==> (#[trigger] views_of(tokens@)[j]).token_type
                        != TokenType::Eof,
            decreases input@.len() - lexer.spec_pos(),
        {
            proof {
                lemma_next_token_progress(input@, lexer.spec_pos(), lexer.spec_line());
            }
            let t = lexer.next_token();
            let is_eof = matches!(t.token_type, TokenType::Eof);
            let ghost old_tokens = tokens@;
            tokens.push(t);
            proof {
                assert(views_of(tokens@) =~= views_of(old_tokens) + seq![t@]);
            }
            if is_eof {
                break;
            }
        }
        let r = Parser { tokens, pos: 0 };
        proof {
            assert(r.toks() =~= spec_document_tokens(input@));
            lemma_spec_tokens_wf(input@, 0, 1);
        }
        r
    }

    /// Moves past the current token (never past end of input).
    pub fn next_token(&mut self)
        requires
            old(self).wf(),
        ensures
            final(self).wf(),
            final(self).toks() == old(self).toks(),
            final(self).spec_pos() == adv(old(self).toks(), old(self).spec_pos()),
    {
        let n = self.tokens.len();
        let is_eof = matches!(self.tokens[self.pos].token_type, TokenType::Eof);
        if !is_eof {
            proof {
                assert(self.cur() == self.toks()[self.spec_pos()]);
                assert(self.spec_pos() != self.toks().len() - 1);
            }
            self.pos = self.pos + 1;
        }
    }

    /// The current token's type.
    fn cur_type(&self) -> (r: TokenType)
        requires
            self.wf(),
        ensures
            r == self.cur().token_type,
    {
        self.tokens[self.pos].token_type
    }

    /// The current token's line.
    fn cur_line(&self) -> (r: usize)
        requires
            self.wf(),
        ensures
            r as nat == self.cur().line,
    {
        self.tokens[self.pos].line
    }

    /// A copy of the current token's literal.
    fn cur_literal(&self) -> (r: String)
        requires
            self.wf(),
        ensures
            r@ == self.cur().literal,
    {
        self.tokens[self.pos].literal.clone()
    }

    /// Whether the current token's literal is exactly `w`.
    fn cur_is(&self, w: &str) -> (r: bool)
        requires
            self.wf(),
        ensures
            r == (self.cur().literal == w@),
    {
        string_eq(&self.tokens[self.pos].literal, w)
    }

    /// Demands a token of type `expected`: consumes and returns its literal,
    /// or fails with the expected kind, the actual kind and the line.
    pub fn expect(&mut self, expected: TokenType) -> (r: Result<String, ParseError>)
        requires
            old(self).wf(),
        ensures
            final(self).wf(),
            final(self).toks() == old(self).toks(),
            ({
                let st = spec_expect(old(self).toks(), old(self).spec_pos(), expected);
                &&& res_of(r) == st.out
                &&& final(self).spec_pos() == st.pos
            }),
    {
        let cur = self.cur_type();
        if cur == expected {
            let value = self.cur_literal();
            self.next_token();
            Ok(value)
        } else {
            Err(ParseError::UnexpectedToken {
                expected: kind_name(expected),
                got: kind_name(cur),
                line: self.cur_line(),
            })
        }
    }
}

/// One step of the `expect` primitive at the model level.
#[verifier::ext_equal]
pub ghost struct SpecStep<T> {
    pub out: Result<T, SpecParseError>,
    pub pos: int,
}

pub open spec fn spec_expect(toks: Seq<SpecToken>, pos: int, expected: TokenType) -> SpecStep<
    Seq<char>,
> {
    if toks[pos].token_type == expected {
        SpecStep { out: Result::Ok(toks[pos].literal), pos: adv(toks, pos) }
    } else {
        SpecStep {
            out: Result::Err(
                SpecParseError::UnexpectedToken {
                    expected: spec_type_name(expected),
                    got: spec_type_name(toks[pos].token_type),
                    line: toks[pos].line,
                },
            ),
            pos,
        }
    }
}


// ---------------------------------------------------------------------------
// The grammar model
// ---------------------------------------------------------------------------

/// The dead branch taken if a scan ever left the token stream; under
/// `wf_tokens` it is unreachable.
pub open spec fn spec_out_of_tokens<T>(pos: int) -> SpecStep<T> {
    SpecStep { out: Result::Err(SpecParseError::IoError("token stream exhausted"@)), pos }
}

/// The next scan position after a sub-parse that began at `pos` and reported
/// `sub` as its end; clamped so the scan always advances and stays inside
/// the stream (the clamps never fire on well-formed runs).
pub open spec fn step_to(toks: Seq<SpecToken>, pos: int, sub: int) -> int {
    let p = if sub > pos {
        sub
    } else {
        pos + 1
    };
    if p <= toks.len() {
        p
    } else {
        toks.len() as int
    }
}

/// Whether an items scan is done: the stream ran out, or the current token
/// closes the block or ends the input.
pub open spec fn items_done(toks: Seq<SpecToken>, pos: int) -> bool {
    pos < 0 || pos >= toks.len() - 1 || toks[pos].token_type == TokenType::RBrace
        || toks[pos].token_type == TokenType::Eof
}

/// An `import` statement: the literal after the keyword, quotes stripped.
pub open spec fn spec_parse_import(toks: Seq<SpecToken>, pos: int) -> SpecStep<Seq<char>> {
    if 0 <= pos < toks.len() {
        let p1 = adv(toks, pos);
        SpecStep { out: Result::Ok(spec_strip_edges(toks[p1].literal, '"')), pos: adv(toks, p1) }
    } else {
        spec_out_of_tokens(pos)
    }
}

/// A `variable` definition: name, optional type (defaulting to String), and
/// an optional `default(value)` clause.
pub open spec fn spec_parse_variable_definition(toks: Seq<SpecToken>, pos: int) -> SpecStep<
    SpecVariableDefinition,
> {
    if 0 <= pos < toks.len() {
        let p1 = adv(toks, pos);
        let name = toks[p1].literal;
        let p2 = adv(toks, p1);
        let skip_type = toks[p2].literal == "default"@ || toks[p2].literal == "variable"@
            || toks[p2].literal == "header"@ || toks[p2].token_type == TokenType::RBrace;
        let var_type = if skip_type {
            "String"@
        } else {
            toks[p2].literal
        };
        let p3 = if skip_type {
            p2
        } else {
            adv(toks, p2)
        };
        if toks[p3].literal == "default"@ {
            let p4 = adv(toks, p3);
            let lp = spec_expect(toks, p4, TokenType::LParen);
            if lp.out is Err {
                SpecStep { out: Result::Err(lp.out->Err_0), pos: lp.pos }
            } else {
                let value = toks[lp.pos].literal;
                let p6 = adv(toks, lp.pos);
                let rp = spec_expect(toks, p6, TokenType::RParen);
                if rp.out is Err {
                    SpecStep { out: Result::Err(rp.out->Err_0), pos: rp.pos }
                } else {
                    SpecStep {
                        out: Result::Ok(
                            SpecVariableDefinition {
                                name,
                                var_type,
                                default_value: Option::Some(value),
                            },
                        ),
                        pos: rp.pos,
                    }
                }
            }
        } else {
            SpecStep {
                out: Result::Ok(
                    SpecVariableDefinition { name, var_type, default_value: Option::None },
                ),
                pos: p3,
            }
        }
    } else {
        spec_out_of_tokens(pos)
    }
}

/// A `header` definition: name and an optional `@default(value)` clause.
pub open spec fn spec_parse_header_definition(toks: Seq<SpecToken>, pos: int) -> SpecStep<
    SpecHeaderDefinition,
> {
    if 0 <= pos < toks.len() {
        let p1 = adv(toks, pos);
        let name = toks[p1].literal;
        let p2 = adv(toks, p1);
        if toks[p2].token_type == TokenType::At {
            let p3 = adv(toks, p2);
            if toks[p3].literal == "default"@ {
                let p4 = adv(toks, p3);
                let lp = spec_expect(toks, p4, TokenType::LParen);
                if lp.out is Err {
                    SpecStep { out: Result::Err(lp.out->Err_0), pos: lp.pos }
                } else {
                    let value = toks[lp.pos].literal;
                    let p6 = adv(toks, lp.pos);
                    let rp = spec_expect(toks, p6, TokenType::RParen);
                    if rp.out is Err {
                        SpecStep { out: Result::Err(rp.out->Err_0), pos: rp.pos }
                    } else {
                        SpecStep {
                            out: Result::Ok(
                                SpecHeaderDefinition {
                                    name,
                                    default_value: Option::Some(value),
                                },
                            ),
                            pos: rp.pos,
                        }
                    }
                }
            } else {
                SpecStep {
                    out: Result::Ok(
                        SpecHeaderDefinition { name, default_value: Option::None },
                    ),
                    pos: adv(toks, p3),
                }
            }
        } else {
            SpecStep {
                out: Result::Ok(SpecHeaderDefinition { name, default_value: Option::None }),
                pos: p2,
            }
        }
    } else {
        spec_out_of_tokens(pos)
    }
}

pub open spec fn spec_empty_config_block() -> SpecConfigBlock {
    SpecConfigBlock {
        base_urls: Seq::empty(),
        cors: false,
        mock: false,
        variables: Seq::empty(),
        headers: Seq::empty(),
    }
}

/// The items of a `config { ... }` block, accumulated into `acc`, closed by
/// the final brace.
pub open spec fn spec_config_items(toks: Seq<SpecToken>, pos: int, acc: SpecConfigBlock) -> SpecStep<
    SpecConfigBlock,
>
    decreases toks.len() - pos, 2int,
{
    if items_done(toks, pos) {
        let rb = spec_expect(toks, pos, TokenType::RBrace);
        if rb.out is Err {
            SpecStep { out: Result::Err(rb.out->Err_0), pos: rb.pos }
        } else {
            SpecStep { out: Result::Ok(acc), pos: rb.pos }
        }
    } else {
        let lit = toks[pos].literal;
        if lit == "baseUrl"@ {
            let p1 = adv(toks, pos);
            let urls = spec_split_urls(toks[p1].literal);
            spec_config_items(
                toks,
                step_to(toks, pos, adv(toks, p1)),
                SpecConfigBlock { base_urls: urls, ..acc },
            )
        } else if lit == "cors"@ {
            let p1 = adv(toks, pos);
            spec_config_items(
                toks,
                step_to(toks, pos, adv(toks, p1)),
                SpecConfigBlock { cors: toks[p1].literal == "true"@, ..acc },
            )
        } else if lit == "mock"@ {
            let p1 = adv(toks, pos);
            spec_config_items(
                toks,
                step_to(toks, pos, adv(toks, p1)),
                SpecConfigBlock { mock: toks[p1].literal == "true"@, ..acc },
            )
        } else if lit == "variable"@ {
            let sub = spec_parse_variable_definition(toks, pos);
            if sub.out is Err {
                SpecStep { out: Result::Err(sub.out->Err_0), pos: sub.pos }
            } else {
                spec_config_items(
                    toks,
                    step_to(toks, pos, sub.pos),
                    SpecConfigBlock { variables: acc.variables.push(sub.out->Ok_0), ..acc },
                )
            }
        } else if lit == "header"@ {
            let sub = spec_parse_header_definition(toks, pos);
            if sub.out is Err {
                SpecStep { out: Result::Err(sub.out->Err_0), pos: sub.pos }
            } else {
                spec_config_items(
                    toks,
                    step_to(toks, pos, sub.pos),
                    SpecConfigBlock { headers: acc.headers.push(sub.out->Ok_0), ..acc },
                )
            }
        } else {
            spec_config_items(toks, step_to(toks, pos, adv(toks, pos)), acc)
        }
    }
}

/// A whole `config { ... }` block.
pub open spec fn spec_parse_config_block(toks: Seq<SpecToken>, pos: int) -> SpecStep<
    SpecConfigBlock,
>
    decreases toks.len() - pos, 3int,
{
    if 0 <= pos < toks.len() {
        let p1 = adv(toks, pos);
        let lb = spec_expect(toks, p1, TokenType::LBrace);
        if lb.out is Err {
            SpecStep { out: Result::Err(lb.out->Err_0), pos: lb.pos }
        } else {
            spec_config_items(toks, step_to(toks, pos, lb.pos), spec_empty_config_block())
        }
    } else {
        spec_out_of_tokens(pos)
    }
}

// --- schemas and fields ---

/// The trailing annotations of a field: `@params`, `@mock(v)`, `@example(v)`.
pub open spec fn spec_field_annotations(
    toks: Seq<SpecToken>,
    pos: int,
    mock: Option<SpecMockValue>,
    example: Option<SpecMockValue>,
    is_params: bool,
) -> SpecStep<(Option<SpecMockValue>, Option<SpecMockValue>, bool)>
    decreases toks.len() - pos,
{
    if pos < 0 || pos >= toks.len() || toks[pos].token_type != TokenType::At {
        SpecStep { out: Result::Ok((mock, example, is_params)), pos }
    } else {
        let p1 = adv(toks, pos);
        let ann = toks[p1].literal;
        let p2 = step_to(toks, pos, adv(toks, p1));
        if ann == "params"@ {
            spec_field_annotations(toks, p2, mock, example, true)
        } else if ann == "mock"@ || ann == "example"@ {
            let lp = spec_expect(toks, p2, TokenType::LParen);
            if lp.out is Err {
                SpecStep { out: Result::Err(lp.out->Err_0), pos: lp.pos }
            } else {
                let p3 = lp.pos;
                let vt = toks[p3].token_type;
                let value = if vt == TokenType::String {
                    SpecMockValue::String(toks[p3].literal)
                } else if vt == TokenType::Number {
                    SpecMockValue::Number(toks[p3].literal)
                } else if vt == TokenType::Ident {
                    if toks[p3].literal == "true"@ {
                        SpecMockValue::Boolean(true)
                    } else if toks[p3].literal == "false"@ {
                        SpecMockValue::Boolean(false)
                    } else {
                        SpecMockValue::String(toks[p3].literal)
                    }
                } else {
                    SpecMockValue::String(Seq::empty())
                };
                let p4 = if vt == TokenType::String || vt == TokenType::Number || vt
                    == TokenType::Ident {
                    adv(toks, p3)
                } else {
                    p3
                };
                let rp = spec_expect(toks, p4, TokenType::RParen);
                if rp.out is Err {
                    SpecStep { out: Result::Err(rp.out->Err_0), pos: rp.pos }
                } else {
                    let p5 = step_to(toks, pos, rp.pos);
                    if ann == "mock"@ {
                        spec_field_annotations(toks, p5, Option::Some(value), example, is_params)
                    } else {
                        spec_field_annotations(toks, p5, mock, Option::Some(value), is_params)
                    }
                }
            }
        } else {
            spec_field_annotations(toks, p2, mock, example, is_params)
        }
    }
}

/// The named field type for a bare type keyword; anything unrecognized is
/// String.
pub open spec fn spec_field_type(s: Seq<char>) -> FieldType {
    if s == "String"@ {
        FieldType::String
    } else if s == "Number"@ {
        FieldType::Number
    } else if s == "Boolean"@ {
        FieldType::Boolean
    } else if s == "Array"@ {
        FieldType::Array
    } else {
        FieldType::String
    }
}

/// One schema field: a name, a nested block or a bare type with an optional
/// `?`, annotations, and an optional trailing comment.
/// The type part of a field: a nested schema block, or a bare type keyword
/// with an optional `?`.
pub open spec fn spec_field_nested(toks: Seq<SpecToken>, pos: int) -> SpecStep<
    (FieldType, Option<Box<SpecSchemaBlock>>, bool),
>
    decreases toks.len() - pos, 1int,
{
    if !(0 <= pos < toks.len()) {
        spec_out_of_tokens(pos)
    } else {
    let p1 = adv(toks, pos);
    if toks[p1].token_type == TokenType::LBrace {
        let sub = spec_parse_schema_block(toks, step_to(toks, pos, p1));
        if sub.out is Err {
            SpecStep { out: Result::Err(sub.out->Err_0), pos: sub.pos }
        } else {
            let schema = sub.out->Ok_0;
            SpecStep {
                out: Result::Ok(
                    (FieldType::Object, Option::Some(Box::new(schema)), schema.optional),
                ),
                pos: sub.pos,
            }
        }
    } else {
        let type_str = toks[p1].literal;
        let p2 = adv(toks, p1);
        let optional = toks[p2].literal == "?"@;
        let p3 = if optional {
            adv(toks, p2)
        } else {
            p2
        };
        SpecStep {
            out: Result::Ok((spec_field_type(type_str), Option::None, optional)),
            pos: p3,
        }
    }
    }
}

pub open spec fn spec_parse_field(toks: Seq<SpecToken>, pos: int) -> SpecStep<SpecField>
    decreases toks.len() - pos, 2int,
{
    if 0 <= pos < toks.len() {
        let name = toks[pos].literal;
        let nested_step = spec_field_nested(toks, pos);
        if nested_step.out is Err {
            SpecStep { out: Result::Err(nested_step.out->Err_0), pos: nested_step.pos }
        } else {
            let (field_type, nested, optional) = nested_step.out->Ok_0;
            let anns = spec_field_annotations(
                toks,
                step_to(toks, pos, nested_step.pos),
                Option::None,
                Option::None,
                false,
            );
            if anns.out is Err {
                SpecStep { out: Result::Err(anns.out->Err_0), pos: anns.pos }
            } else {
                let (mock, example, is_params) = anns.out->Ok_0;
                let has_comment = 0 <= anns.pos < toks.len() && toks[anns.pos].token_type
                    == TokenType::Comment;
                let comment = if has_comment {
                    Option::Some(toks[anns.pos].literal)
                } else {
                    Option::None
                };
                let p_end = if has_comment {
                    adv(toks, anns.pos)
                } else {
                    anns.pos
                };
                SpecStep {
                    out: Result::Ok(
                        SpecField {
                            name,
                            field_type,
                            optional,
                            nested,
                            mock,
                            example,
                            comment,
                            is_params,
                        },
                    ),
                    pos: p_end,
                }
            }
        }
    } else {
        spec_out_of_tokens(pos)
    }
}

/// The fields of a schema block, accumulated into `acc`, closed by the final
/// brace and an optional trailing `?`.
pub open spec fn spec_schema_items(toks: Seq<SpecToken>, pos: int, acc: Seq<SpecField>) -> SpecStep<
    SpecSchemaBlock,
>
    decreases toks.len() - pos, 3int,
{
    if items_done(toks, pos) {
        let rb = spec_expect(toks, pos, TokenType::RBrace);
        if rb.out is Err {
            SpecStep { out: Result::Err(rb.out->Err_0), pos: rb.pos }
        } else {
            let optional = toks[rb.pos].literal == "?"@;
            let p2 = if optional {
                adv(toks, rb.pos)
            } else {
                rb.pos
            };
            SpecStep {
                out: Result::Ok(SpecSchemaBlock { fields: acc, optional }),
                pos: p2,
            }
        }
    } else {
        if toks[pos].token_type == TokenType::Ident {
            let sub = spec_parse_field(toks, pos);
            if sub.out is Err {
                SpecStep { out: Result::Err(sub.out->Err_0), pos: sub.pos }
            } else {
                spec_schema_items(toks, step_to(toks, pos, sub.pos), acc.push(sub.out->Ok_0))
            }
        } else {
            spec_schema_items(toks, step_to(toks, pos, adv(toks, pos)), acc)
        }
    }
}

/// A `{ field* } ?` schema block.
pub open spec fn spec_parse_schema_block(toks: Seq<SpecToken>, pos: int) -> SpecStep<
    SpecSchemaBlock,
>
    decreases toks.len() - pos, 0int,
{
    if 0 <= pos < toks.len() {
        let lb = spec_expect(toks, pos, TokenType::LBrace);
        if lb.out is Err {
            SpecStep { out: Result::Err(lb.out->Err_0), pos: lb.pos }
        } else {
            spec_schema_items(toks, step_to(toks, pos, lb.pos), Seq::empty())
        }
    } else {
        spec_out_of_tokens(pos)
    }
}

// --- methods and api blocks ---

pub open spec fn spec_empty_method(method: Seq<char>) -> SpecMethodBlock {
    SpecMethodBlock {
        method,
        name: Option::None,
        description: Option::None,
        request: Option::None,
        response: Option::None,
    }
}

/// The items of a method block.
pub open spec fn spec_method_items(toks: Seq<SpecToken>, pos: int, acc: SpecMethodBlock) -> SpecStep<
    SpecMethodBlock,
>
    decreases toks.len() - pos, 2int,
{
    if items_done(toks, pos) {
        let rb = spec_expect(toks, pos, TokenType::RBrace);
        if rb.out is Err {
            SpecStep { out: Result::Err(rb.out->Err_0), pos: rb.pos }
        } else {
            SpecStep { out: Result::Ok(acc), pos: rb.pos }
        }
    } else {
        let lit = toks[pos].literal;
        if lit == "name"@ {
            let p1 = adv(toks, pos);
            if toks[p1].token_type == TokenType::String {
                spec_method_items(
                    toks,
                    step_to(toks, pos, adv(toks, p1)),
                    SpecMethodBlock { name: Option::Some(toks[p1].literal), ..acc },
                )
            } else {
                spec_method_items(toks, step_to(toks, pos, p1), acc)
            }
        } else if lit == "request"@ {
            let sub = spec_parse_schema_block(toks, step_to(toks, pos, adv(toks, pos)));
            if sub.out is Err {
                SpecStep { out: Result::Err(sub.out->Err_0), pos: sub.pos }
            } else {
                spec_method_items(
                    toks,
                    step_to(toks, pos, sub.pos),
                    SpecMethodBlock { request: Option::Some(sub.out->Ok_0), ..acc },
                )
            }
        } else if lit == "response"@ {
            let sub = spec_parse_schema_block(toks, step_to(toks, pos, adv(toks, pos)));
            if sub.out is Err {
                SpecStep { out: Result::Err(sub.out->Err_0), pos: sub.pos }
            } else {
                spec_method_items(
                    toks,
                    step_to(toks, pos, sub.pos),
                    SpecMethodBlock { response: Option::Some(sub.out->Ok_0), ..acc },
                )
            }
        } else {
            spec_method_items(toks, step_to(toks, pos, adv(toks, pos)), acc)
        }
    }
}

/// One HTTP verb block inside an `api` block.
pub open spec fn spec_parse_method_block(toks: Seq<SpecToken>, pos: int) -> SpecStep<
    SpecMethodBlock,
>
    decreases toks.len() - pos, 3int,
{
    if 0 <= pos < toks.len() {
        let method = spec_ascii_upper(toks[pos].literal);
        let p1 = adv(toks, pos);
        let lb = spec_expect(toks, p1, TokenType::LBrace);
        if lb.out is Err {
            SpecStep { out: Result::Err(lb.out->Err_0), pos: lb.pos }
        } else {
            spec_method_items(toks, step_to(toks, pos, lb.pos), spec_empty_method(method))
        }
    } else {
        spec_out_of_tokens(pos)
    }
}

/// Whether a token literal names an HTTP verb, in any letter case.
pub open spec fn spec_is_verb(s: Seq<char>) -> bool {
    let l = spec_ascii_lower(s);
    l == "get"@ || l == "post"@ || l == "put"@ || l == "delete"@ || l == "patch"@
}

/// The items of an `api` block: doc comments buffer into the next method's
/// description; anything that is not a verb is skipped.
pub open spec fn spec_api_items(
    toks: Seq<SpecToken>,
    pos: int,
    acc: Seq<SpecMethodBlock>,
    pending: Option<Seq<char>>,
) -> SpecStep<Seq<SpecMethodBlock>>
    decreases toks.len() - pos, 4int,
{
    if items_done(toks, pos) {
        let rb = spec_expect(toks, pos, TokenType::RBrace);
        if rb.out is Err {
            SpecStep { out: Result::Err(rb.out->Err_0), pos: rb.pos }
        } else {
            SpecStep { out: Result::Ok(acc), pos: rb.pos }
        }
    } else {
        if toks[pos].token_type == TokenType::DocComment {
            spec_api_items(
                toks,
                step_to(toks, pos, adv(toks, pos)),
                acc,
                Option::Some(toks[pos].literal),
            )
        } else if spec_is_verb(toks[pos].literal) {
            let sub = spec_parse_method_block(toks, pos);
            if sub.out is Err {
                SpecStep { out: Result::Err(sub.out->Err_0), pos: sub.pos }
            } else {
                let m = SpecMethodBlock { description: pending, ..sub.out->Ok_0 };
                spec_api_items(toks, step_to(toks, pos, sub.pos), acc.push(m), Option::None)
            }
        } else {
            spec_api_items(toks, step_to(toks, pos, adv(toks, pos)), acc, pending)
        }
    }
}

/// An `api "<path>" { ... }` block.
pub open spec fn spec_parse_api_block(toks: Seq<SpecToken>, pos: int) -> SpecStep<SpecApiBlock>
    decreases toks.len() - pos, 5int,
{
    if 0 <= pos < toks.len() {
        let p1 = adv(toks, pos);
        let path = toks[p1].literal;
        let p2 = adv(toks, p1);
        let lb = spec_expect(toks, p2, TokenType::LBrace);
        if lb.out is Err {
            SpecStep { out: Result::Err(lb.out->Err_0), pos: lb.pos }
        } else {
            let items = spec_api_items(toks, step_to(toks, pos, lb.pos), Seq::empty(), Option::None);
            if items.out is Err {
                SpecStep { out: Result::Err(items.out->Err_0), pos: items.pos }
            } else {
                SpecStep {
                    out: Result::Ok(SpecApiBlock { path, methods: items.out->Ok_0 }),
                    pos: items.pos,
                }
            }
        }
    } else {
        spec_out_of_tokens(pos)
    }
}

// --- websocket blocks ---

pub open spec fn spec_empty_ws_event(name: Seq<char>) -> SpecWsEvent {
    SpecWsEvent { name, request: Option::None, response: Option::None }
}

pub open spec fn spec_ws_event_items(toks: Seq<SpecToken>, pos: int, acc: SpecWsEvent) -> SpecStep<
    SpecWsEvent,
>
    decreases toks.len() - pos, 2int,
{
    if items_done(toks, pos) {
        let rb = spec_expect(toks, pos, TokenType::RBrace);
        if rb.out is Err {
            SpecStep { out: Result::Err(rb.out->Err_0), pos: rb.pos }
        } else {
            SpecStep { out: Result::Ok(acc), pos: rb.pos }
        }
    } else {
        let lit = toks[pos].literal;
        if lit == "request"@ {
            let sub = spec_parse_schema_block(toks, step_to(toks, pos, adv(toks, pos)));
            if sub.out is Err {
                SpecStep { out: Result::Err(sub.out->Err_0), pos: sub.pos }
            } else {
                spec_ws_event_items(
                    toks,
                    step_to(toks, pos, sub.pos),
                    SpecWsEvent { request: Option::Some(sub.out->Ok_0), ..acc },
                )
            }
        } else if lit == "response"@ {
            let sub = spec_parse_schema_block(toks, step_to(toks, pos, adv(toks, pos)));
            if sub.out is Err {
                SpecStep { out: Result::Err(sub.out->Err_0), pos: sub.pos }
            } else {
                spec_ws_event_items(
                    toks,
                    step_to(toks, pos, sub.pos),
                    SpecWsEvent { response: Option::Some(sub.out->Ok_0), ..acc },
                )
            }
        } else {
            spec_ws_event_items(toks, step_to(toks, pos, adv(toks, pos)), acc)
        }
    }
}

/// An `event "<name>" { ... }` block.
pub open spec fn spec_parse_ws_event(toks: Seq<SpecToken>, pos: int) -> SpecStep<SpecWsEvent>
    decreases toks.len() - pos, 3int,
{
    if 0 <= pos < toks.len() {
        let p1 = adv(toks, pos);
        let name = toks[p1].literal;
        let p2 = adv(toks, p1);
        let lb = spec_expect(toks, p2, TokenType::LBrace);
        if lb.out is Err {
            SpecStep { out: Result::Err(lb.out->Err_0), pos: lb.pos }
        } else {
            spec_ws_event_items(toks, step_to(toks, pos, lb.pos), spec_empty_ws_event(name))
        }
    } else {
        spec_out_of_tokens(pos)
    }
}

pub open spec fn spec_empty_ws(url: Seq<char>) -> SpecWsBlock {
    SpecWsBlock {
        url,
        events: Seq::empty(),
        name: Option::None,
        description: Option::None,
        auth: Option::None,
        connect_headers: Option::None,
    }
}

/// The items of a `ws`/`socketio` block; the last unconsumed doc comment
/// becomes the block's description.
pub open spec fn spec_ws_items(
    toks: Seq<SpecToken>,
    pos: int,
    acc: SpecWsBlock,
    pending: Option<Seq<char>>,
) -> SpecStep<SpecWsBlock>
    decreases toks.len() - pos, 4int,
{
    if items_done(toks, pos) {
        let rb = spec_expect(toks, pos, TokenType::RBrace);
        if rb.out is Err {
            SpecStep { out: Result::Err(rb.out->Err_0), pos: rb.pos }
        } else {
            SpecStep {
                out: Result::Ok(SpecWsBlock { description: pending, ..acc }),
                pos: rb.pos,
            }
        }
    } else {
        if toks[pos].token_type == TokenType::DocComment {
            spec_ws_items(
                toks,
                step_to(toks, pos, adv(toks, pos)),
                acc,
                Option::Some(toks[pos].literal),
            )
        } else {
            let lit = toks[pos].literal;
            if lit == "name"@ {
                let p1 = adv(toks, pos);
                if toks[p1].token_type == TokenType::String {
                    spec_ws_items(
                        toks,
                        step_to(toks, pos, adv(toks, p1)),
                        SpecWsBlock { name: Option::Some(toks[p1].literal), ..acc },
                        pending,
                    )
                } else {
                    spec_ws_items(toks, step_to(toks, pos, p1), acc, pending)
                }
            } else if lit == "auth"@ {
                let sub = spec_parse_schema_block(toks, step_to(toks, pos, adv(toks, pos)));
                if sub.out is Err {
                    SpecStep { out: Result::Err(sub.out->Err_0), pos: sub.pos }
                } else {
                    spec_ws_items(
                        toks,
                        step_to(toks, pos, sub.pos),
                        SpecWsBlock { auth: Option::Some(sub.out->Ok_0), ..acc },
                        pending,
                    )
                }
            } else if lit == "headers"@ {
                let sub = spec_parse_schema_block(toks, step_to(toks, pos, adv(toks, pos)));
                if sub.out is Err {
                    SpecStep { out: Result::Err(sub.out->Err_0), pos: sub.pos }
                } else {
                    spec_ws_items(
                        toks,
                        step_to(toks, pos, sub.pos),
                        SpecWsBlock { connect_headers: Option::Some(sub.out->Ok_0), ..acc },
                        pending,
                    )
                }
            } else if lit == "event"@ {
                let sub = spec_parse_ws_event(toks, pos);
                if sub.out is Err {
                    SpecStep { out: Result::Err(sub.out->Err_0), pos: sub.pos }
                } else {
                    spec_ws_items(
                        toks,
                        step_to(toks, pos, sub.pos),
                        SpecWsBlock { events: acc.events.push(sub.out->Ok_0), ..acc },
                        Option::None,
                    )
                }
            } else {
                spec_ws_items(toks, step_to(toks, pos, adv(toks, pos)), acc, pending)
            }
        }
    }
}

/// A `ws "<url>" { ... }` or `socketio "<url>" { ... }` block.
pub open spec fn spec_parse_ws_block(toks: Seq<SpecToken>, pos: int) -> SpecStep<SpecWsBlock>
    decreases toks.len() - pos, 5int,
{
    if 0 <= pos < toks.len() {
        let p1 = adv(toks, pos);
        let url = toks[p1].literal;
        let p2 = adv(toks, p1);
        let lb = spec_expect(toks, p2, TokenType::LBrace);
        if lb.out is Err {
            SpecStep { out: Result::Err(lb.out->Err_0), pos: lb.pos }
        } else {
            spec_ws_items(toks, step_to(toks, pos, lb.pos), spec_empty_ws(url), Option::None)
        }
    } else {
        spec_out_of_tokens(pos)
    }
}

// --- categories ---

/// One step of a category parse: its outcome, the next position, and the
/// parse-wide category counter.
#[verifier::ext_equal]
pub ghost struct SpecCatStep {
    pub out: Result<SpecCategoryBlock, SpecParseError>,
    pub pos: int,
    pub counter: int,
}

pub open spec fn spec_empty_category(id: Seq<char>) -> SpecCategoryBlock {
    SpecCategoryBlock {
        id,
        name: Option::None,
        desc: Option::None,
        prefix: Option::None,
        apis: Seq::empty(),
        ws_apis: Seq::empty(),
        socketio_apis: Seq::empty(),
        sse_apis: Seq::empty(),
        children: Seq::empty(),
    }
}

/// The generated category identifier: `cat-<name>-<n>`.
pub open spec fn spec_category_id(name: Seq<char>, n: int) -> Seq<char> {
    "cat-"@ + name + "-"@ + spec_dec(if n >= 0 {
        n as nat
    } else {
        0
    })
}

/// The items of a `category` block; nested categories share the counter.
pub open spec fn spec_category_items(
    toks: Seq<SpecToken>,
    pos: int,
    acc: SpecCategoryBlock,
    counter: int,
) -> SpecCatStep
    decreases toks.len() - pos, 6int,
{
    if items_done(toks, pos) {
        let rb = spec_expect(toks, pos, TokenType::RBrace);
        if rb.out is Err {
            SpecCatStep { out: Result::Err(rb.out->Err_0), pos: rb.pos, counter }
        } else {
            SpecCatStep { out: Result::Ok(acc), pos: rb.pos, counter }
        }
    } else {
        let lit = toks[pos].literal;
        if lit == "name"@ {
            let p1 = adv(toks, pos);
            if toks[p1].token_type == TokenType::String {
                spec_category_items(
                    toks,
                    step_to(toks, pos, adv(toks, p1)),
                    SpecCategoryBlock { name: Option::Some(toks[p1].literal), ..acc },
                    counter,
                )
            } else {
                spec_category_items(toks, step_to(toks, pos, p1), acc, counter)
            }
        } else if lit == "desc"@ {
            let p1 = adv(toks, pos);
            if toks[p1].token_type == TokenType::String {
                spec_category_items(
                    toks,
                    step_to(toks, pos, adv(toks, p1)),
                    SpecCategoryBlock { desc: Option::Some(toks[p1].literal), ..acc },
                    counter,
                )
            } else {
                spec_category_items(toks, step_to(toks, pos, p1), acc, counter)
            }
        } else if lit == "prefix"@ {
            let p1 = adv(toks, pos);
            spec_category_items(
                toks,
                step_to(toks, pos, adv(toks, p1)),
                SpecCategoryBlock { prefix: Option::Some(toks[p1].literal), ..acc },
                counter,
            )
        } else if lit == "api"@ {
            let sub = spec_parse_api_block(toks, pos);
            if sub.out is Err {
                SpecCatStep { out: Result::Err(sub.out->Err_0), pos: sub.pos, counter }
            } else {
                spec_category_items(
                    toks,
                    step_to(toks, pos, sub.pos),
                    SpecCategoryBlock { apis: acc.apis.push(sub.out->Ok_0), ..acc },
                    counter,
                )
            }
        } else if lit == "ws"@ {
            let sub = spec_parse_ws_block(toks, pos);
            if sub.out is Err {
                SpecCatStep { out: Result::Err(sub.out->Err_0), pos: sub.pos, counter }
            } else {
                spec_category_items(
                    toks,
                    step_to(toks, pos, sub.pos),
                    SpecCategoryBlock { ws_apis: acc.ws_apis.push(sub.out->Ok_0), ..acc },
                    counter,
                )
            }
        } else if lit == "socketio"@ {
            let sub = spec_parse_ws_block(toks, pos);
            if sub.out is Err {
                SpecCatStep { out: Result::Err(sub.out->Err_0), pos: sub.pos, counter }
            } else {
                spec_category_items(
                    toks,
                    step_to(toks, pos, sub.pos),
                    SpecCategoryBlock {
                        socketio_apis: acc.socketio_apis.push(sub.out->Ok_0),
                        ..acc
                    },
                    counter,
                )
            }
        } else if lit == "category"@ {
            let sub = spec_parse_category_block(toks, pos, counter);
            if sub.out is Err {
                SpecCatStep { out: Result::Err(sub.out->Err_0), pos: sub.pos, counter: sub.counter }
            } else {
                spec_category_items(
                    toks,
                    step_to(toks, pos, sub.pos),
                    SpecCategoryBlock { children: acc.children.push(sub.out->Ok_0), ..acc },
                    sub.counter,
                )
            }
        } else {
            spec_category_items(toks, step_to(toks, pos, adv(toks, pos)), acc, counter)
        }
    }
}

/// A `category "<name>" { ... }` block; the counter increments once per
/// category across the whole parse.
pub open spec fn spec_parse_category_block(toks: Seq<SpecToken>, pos: int, counter: int) -> SpecCatStep
    decreases toks.len() - pos, 5int,
{
    if 0 <= pos < toks.len() {
        let p1 = adv(toks, pos);
        let id_name = toks[p1].literal;
        let p2 = adv(toks, p1);
        let lb = spec_expect(toks, p2, TokenType::LBrace);
        if lb.out is Err {
            SpecCatStep { out: Result::Err(lb.out->Err_0), pos: lb.pos, counter }
        } else {
            spec_category_items(
                toks,
                step_to(toks, pos, lb.pos),
                spec_empty_category(spec_category_id(id_name, counter + 1)),
                counter + 1,
            )
        }
    } else {
        SpecCatStep {
            out: Result::Err(SpecParseError::IoError("token stream exhausted"@)),
            pos,
            counter,
        }
    }
}

// --- the document ---

/// One step of the top-level parse.
#[verifier::ext_equal]
pub ghost struct SpecDocStep {
    pub out: Result<SpecRqcConfig, SpecParseError>,
    pub pos: int,
    pub counter: int,
}

/// The top-level statements of a document, accumulated into `acc`.
pub open spec fn spec_parse_top(
    toks: Seq<SpecToken>,
    pos: int,
    acc: SpecRqcConfig,
    counter: int,
) -> SpecDocStep
    decreases toks.len() - pos, 6int,
{
    if pos < 0 || pos >= toks.len() - 1 || toks[pos].token_type == TokenType::Eof {
        SpecDocStep { out: Result::Ok(acc), pos, counter }
    } else {
        let lit = toks[pos].literal;
        if lit == "config"@ {
            let sub = spec_parse_config_block(toks, pos);
            if sub.out is Err {
                SpecDocStep { out: Result::Err(sub.out->Err_0), pos: sub.pos, counter }
            } else {
                spec_parse_top(
                    toks,
                    step_to(toks, pos, sub.pos),
                    SpecRqcConfig { config: Option::Some(sub.out->Ok_0), ..acc },
                    counter,
                )
            }
        } else if lit == "api"@ {
            let sub = spec_parse_api_block(toks, pos);
            if sub.out is Err {
                SpecDocStep { out: Result::Err(sub.out->Err_0), pos: sub.pos, counter }
            } else {
                spec_parse_top(
                    toks,
                    step_to(toks, pos, sub.pos),
                    SpecRqcConfig { apis: acc.apis.push(sub.out->Ok_0), ..acc },
                    counter,
                )
            }
        } else if lit == "ws"@ {
            let sub = spec_parse_ws_block(toks, pos);
            if sub.out is Err {
                SpecDocStep { out: Result::Err(sub.out->Err_0), pos: sub.pos, counter }
            } else {
                spec_parse_top(
                    toks,
                    step_to(toks, pos, sub.pos),
                    SpecRqcConfig { ws_apis: acc.ws_apis.push(sub.out->Ok_0), ..acc },
                    counter,
                )
            }
        } else if lit == "socketio"@ {
            let sub = spec_parse_ws_block(toks, pos);
            if sub.out is Err {
                SpecDocStep { out: Result::Err(sub.out->Err_0), pos: sub.pos, counter }
            } else {
                spec_parse_top(
                    toks,
                    step_to(toks, pos, sub.pos),
                    SpecRqcConfig { socketio_apis: acc.socketio_apis.push(sub.out->Ok_0), ..acc },
                    counter,
                )
            }
        } else if lit == "import"@ {
            let sub = spec_parse_import(toks, pos);
            if sub.out is Err {
                SpecDocStep { out: Result::Err(sub.out->Err_0), pos: sub.pos, counter }
            } else {
                spec_parse_top(
                    toks,
                    step_to(toks, pos, sub.pos),
                    SpecRqcConfig { imports: acc.imports.push(sub.out->Ok_0), ..acc },
                    counter,
                )
            }
        } else if lit == "category"@ {
            let sub = spec_parse_category_block(toks, pos, counter);
            if sub.out is Err {
                SpecDocStep { out: Result::Err(sub.out->Err_0), pos: sub.pos, counter: sub.counter }
            } else {
                spec_parse_top(
                    toks,
                    step_to(toks, pos, sub.pos),
                    SpecRqcConfig { categories: acc.categories.push(sub.out->Ok_0), ..acc },
                    sub.counter,
                )
            }
        } else {
            spec_parse_top(toks, step_to(toks, pos, adv(toks, pos)), acc, counter)
        }
    }
}

/// The whole-document parse over a token stream.
pub open spec fn spec_parse_tokens(toks: Seq<SpecToken>) -> Result<SpecRqcConfig, SpecParseError> {
    spec_parse_top(toks, 0, crate::ast::spec_empty_config(), 0).out
}

/// The whole-document parse of an input text.
pub open spec fn spec_parse_text(s: Seq<char>) -> Result<SpecRqcConfig, SpecParseError> {
    spec_parse_tokens(spec_document_tokens(s))
}


// ---------------------------------------------------------------------------
// The executable parsers
// ---------------------------------------------------------------------------

impl Parser {
    /// Parses an `import` statement, returning the import path.
    pub fn parse_import(&mut self) -> (r: Result<String, ParseError>)
        requires
            old(self).wf(),
        ensures
            final(self).wf(),
            final(self).toks() == old(self).toks(),
            final(self).spec_pos() >= old(self).spec_pos(),
            old(self).cur().token_type != TokenType::Eof ==> final(self).spec_pos() > old(
                self,
            ).spec_pos(),
            ({
                let st = spec_parse_import(old(self).toks(), old(self).spec_pos());
                &&& res_of(r) == st.out
                &&& final(self).spec_pos() == st.pos
            }),
    {
        self.next_token();
        let lit = self.cur_literal();
        let chars = string_to_chars(&lit);
        let path = strip_edges(&chars, '"');
        self.next_token();
        Ok(path)
    }

    /// Parses a `variable` definition from the settings block.
    pub fn parse_variable_definition(&mut self) -> (r: Result<VariableDefinition, ParseError>)
        requires
            old(self).wf(),
        ensures
            final(self).wf(),
            final(self).toks() == old(self).toks(),
            final(self).spec_pos() >= old(self).spec_pos(),
            old(self).cur().token_type != TokenType::Eof ==> final(self).spec_pos() > old(
                self,
            ).spec_pos(),
            ({
                let st = spec_parse_variable_definition(old(self).toks(), old(self).spec_pos());
                &&& res_of(r) == st.out
                &&& final(self).spec_pos() == st.pos
            }),
    {
        self.next_token();
        let name = self.cur_literal();
        self.next_token();

        let skip_type = self.cur_is("default") || self.cur_is("variable") || self.cur_is("header")
            || matches!(self.cur_type(), TokenType::RBrace);
        let var_type = if skip_type {
            String::from_str("String")
        } else {
            let t = self.cur_literal();
            self.next_token();
            t
        };

        if self.cur_is("default") {
            self.next_token();
            match self.expect(TokenType::LParen) {
                Err(e) => {
                    return Err(e);
                },
                Ok(_) => {},
            }
            let value = self.cur_literal();
            self.next_token();
            match self.expect(TokenType::RParen) {
                Err(e) => {
                    return Err(e);
                },
                Ok(_) => {},
            }
            Ok(VariableDefinition { name, var_type, default_value: Some(value) })
        } else {
            Ok(VariableDefinition { name, var_type, default_value: None })
        }
    }

    /// Parses a `header` definition from the settings block.
    pub fn parse_header_definition(&mut self) -> (r: Result<HeaderDefinition, ParseError>)
        requires
            old(self).wf(),
        ensures
            final(self).wf(),
            final(self).toks() == old(self).toks(),
            final(self).spec_pos() >= old(self).spec_pos(),
            old(self).cur().token_type != TokenType::Eof ==> final(self).spec_pos() > old(
                self,
            ).spec_pos(),
            ({
                let st = spec_parse_header_definition(old(self).toks(), old(self).spec_pos());
                &&& res_of(r) == st.out
                &&& final(self).spec_pos() == st.pos
            }),
    {
        self.next_token();
        let name = self.cur_literal();
        self.next_token();

        if matches!(self.cur_type(), TokenType::At) {
            self.next_token();
            if self.cur_is("default") {
                self.next_token();
                match self.expect(TokenType::LParen) {
                    Err(e) => {
                        return Err(e);
                    },
                    Ok(_) => {},
                }
                let value = self.cur_literal();
                self.next_token();
                match self.expect(TokenType::RParen) {
                    Err(e) => {
                        return Err(e);
                    },
                    Ok(_) => {},
                }
                Ok(HeaderDefinition { name, default_value: Some(value) })
            } else {
                self.next_token();
                Ok(HeaderDefinition { name, default_value: None })
            }
        } else {
            Ok(HeaderDefinition { name, default_value: None })
        }
    }

    /// Parses a `config { ... }` settings block.
    pub fn parse_config_block(&mut self) -> (r: Result<ConfigBlock, ParseError>)
        requires
            old(self).wf(),
        ensures
            final(self).wf(),
            final(self).toks() == old(self).toks(),
            final(self).spec_pos() >= old(self).spec_pos(),
            old(self).cur().token_type != TokenType::Eof ==> final(self).spec_pos() > old(
                self,
            ).spec_pos(),
            ({
                let st = spec_parse_config_block(old(self).toks(), old(self).spec_pos());
                &&& res_of(r) == st.out
                &&& final(self).spec_pos() == st.pos
            }),
        decreases old(self).spec_span(), 3int,
    {
        let ghost toks = self.toks();
        let ghost pos0 = self.spec_pos();
        self.next_token();
        match self.expect(TokenType::LBrace) {
            Err(e) => {
                return Err(e);
            },
            Ok(_) => {},
        }
        let mut cfg = ConfigBlock {
            base_urls: Vec::new(),
            cors: false,
            mock: false,
            variables: Vec::new(),
            headers: Vec::new(),
        };
        proof {
            assert(cfg@ =~~= spec_empty_config_block());
        }
        loop
            invariant
                self.wf(),
                self.toks() == toks,
                pos0 < self.spec_pos(),
                spec_config_items(toks, self.spec_pos(), cfg@) == spec_parse_config_block(
                    toks,
                    pos0,
                ),
            decreases self.spec_span(),
        {
            let t = self.cur_type();
            if matches!(t, TokenType::RBrace) || matches!(t, TokenType::Eof) {
                break;
            }
            let ghost cur0 = self.spec_pos();
            let ghost cfg0 = cfg@;
            if self.cur_is("baseUrl") {
                self.next_token();
                let lit = self.cur_literal();
                let chars = string_to_chars(&lit);
                cfg.base_urls = split_urls_from(&chars, 0);
                self.next_token();
                proof {
                    assert(chars@.subrange(0, chars@.len() as int) =~= lit@);
                    assert(cfg@ =~~= SpecConfigBlock {
                        base_urls: spec_split_urls(toks[adv(toks, cur0)].literal),
                        ..cfg0
                    });
                }
            } else if self.cur_is("cors") {
                self.next_token();
                cfg.cors = self.cur_is("true");
                self.next_token();
                proof {
                    assert(cfg@ =~~= SpecConfigBlock {
                        cors: toks[adv(toks, cur0)].literal == "true"@,
                        ..cfg0
                    });
                }
            } else if self.cur_is("mock") {
                self.next_token();
                cfg.mock = self.cur_is("true");
                self.next_token();
                proof {
                    assert(cfg@ =~~= SpecConfigBlock {
                        mock: toks[adv(toks, cur0)].literal == "true"@,
                        ..cfg0
                    });
                }
            } else if self.cur_is("variable") {
                match self.parse_variable_definition() {
                    Err(e) => {
                        return Err(e);
                    },
                    Ok(v) => {
                        let ghost vv = v@;
                        cfg.variables.push(v);
                        proof {
                            assert(cfg.variables@.map_values(|x: VariableDefinition| x@)
                                =~= cfg0.variables.push(vv));
                            assert(cfg@ =~~= SpecConfigBlock {
                                variables: cfg0.variables.push(vv),
                                ..cfg0
                            });
                        }
                    },
                }
            } else if self.cur_is("header") {
                match self.parse_header_definition() {
                    Err(e) => {
                        return Err(e);
                    },
                    Ok(h) => {
                        let ghost hv = h@;
                        cfg.headers.push(h);
                        proof {
                            assert(cfg.headers@.map_values(|x: HeaderDefinition| x@)
                                =~= cfg0.headers.push(hv));
                            assert(cfg@ =~~= SpecConfigBlock {
                                headers: cfg0.headers.push(hv),
                                ..cfg0
                            });
                        }
                    },
                }
            } else {
                self.next_token();
            }
        }
        match self.expect(TokenType::RBrace) {
            Err(e) => {
                return Err(e);
            },
            Ok(_) => {},
        }
        Ok(cfg)
    }
}

/// Whether a literal names an HTTP verb, in any letter case.
fn is_http_verb(s: &String) -> (r: bool)
    ensures
        r == spec_is_verb(s@),
{
    let low = ascii_lower(s.as_str());
    string_eq(&low, "get") || string_eq(&low, "post") || string_eq(&low, "put") || string_eq(
        &low,
        "delete",
    ) || string_eq(&low, "patch")
}

impl Parser {
    /// Parses a `{ field* } ?` schema block.
    pub fn parse_schema_block(&mut self) -> (r: Result<SchemaBlock, ParseError>)
        requires
            old(self).wf(),
        ensures
            final(self).wf(),
            final(self).toks() == old(self).toks(),
            final(self).spec_pos() >= old(self).spec_pos(),
            r is Ok ==> final(self).spec_pos() > old(self).spec_pos(),
            ({
                let st = spec_parse_schema_block(old(self).toks(), old(self).spec_pos());
                &&& res_of(r) == st.out
                &&& final(self).spec_pos() == st.pos
            }),
        decreases old(self).spec_span(), 0int,
    {
        let ghost toks = self.toks();
        let ghost pos0 = self.spec_pos();
        match self.expect(TokenType::LBrace) {
            Err(e) => {
                return Err(e);
            },
            Ok(_) => {},
        }
        proof {
            assert(toks[pos0].token_type == TokenType::LBrace);
            assert(self.spec_pos() == pos0 + 1);
        }
        let mut fields: Vec<Field> = Vec::new();
        loop
            invariant
                self.wf(),
                self.toks() == toks,
                pos0 < self.spec_pos(),
                spec_schema_items(toks, self.spec_pos(), view_field_list(fields@))
                    == spec_parse_schema_block(toks, pos0),
            decreases self.spec_span(),
        {
            let t = self.cur_type();
            if matches!(t, TokenType::RBrace) || matches!(t, TokenType::Eof) {
                break;
            }
            if matches!(t, TokenType::Ident) {
                let ghost fields0 = fields@;
                match self.parse_field() {
                    Err(e) => {
                        return Err(e);
                    },
                    Ok(f) => {
                        let ghost fv = f@;
                        fields.push(f);
                        proof {
                            lemma_view_field_list_push(fields0, fields@[fields@.len() - 1]);
                            assert(fields@ =~= fields0.push(fields@[fields@.len() - 1]));
                        }
                    },
                }
            } else {
                self.next_token();
            }
        }
        match self.expect(TokenType::RBrace) {
            Err(e) => {
                return Err(e);
            },
            Ok(_) => {},
        }
        let optional = self.cur_is("?");
        if optional {
            self.next_token();
        }
        let blk = SchemaBlock { fields, optional };
        proof {
            assert(blk@ =~~= SpecSchemaBlock { fields: view_field_list(blk.fields@), optional });
        }
        Ok(blk)
    }

    /// Parses one schema field with its annotations and trailing comment.
    #[verifier::rlimit(100)]
    pub fn parse_field(&mut self) -> (r: Result<Field, ParseError>)
        requires
            old(self).wf(),
            old(self).cur().token_type != TokenType::Eof,
        ensures
            final(self).wf(),
            final(self).toks() == old(self).toks(),
            final(self).spec_pos() >= old(self).spec_pos(),
            old(self).cur().token_type != TokenType::Eof ==> final(self).spec_pos() > old(
                self,
            ).spec_pos(),
            ({
                let st = spec_parse_field(old(self).toks(), old(self).spec_pos());
                &&& res_of(r) == st.out
                &&& final(self).spec_pos() == st.pos
            }),
        decreases old(self).spec_span(), 1int,
    {
        let ghost toks = self.toks();
        let ghost pos0 = self.spec_pos();
        let name = self.cur_literal();
        self.next_token();

        let mut field_type = FieldType::String;
        let mut nested: Option<Box<SchemaBlock>> = None;
        let mut optional = false;
        if matches!(self.cur_type(), TokenType::LBrace) {
            match self.parse_schema_block() {
                Err(e) => {
                    return Err(e);
                },
                Ok(schema) => {
                    field_type = FieldType::Object;
                    optional = schema.optional;
                    nested = Some(Box::new(schema));
                },
            }
        } else {
            let type_str = self.cur_literal();
            self.next_token();
            optional = self.cur_is("?");
            if optional {
                self.next_token();
            }
            field_type = if string_eq(&type_str, "String") {
                FieldType::String
            } else if string_eq(&type_str, "Number") {
                FieldType::Number
            } else if string_eq(&type_str, "Boolean") {
                FieldType::Boolean
            } else if string_eq(&type_str, "Array") {
                FieldType::Array
            } else {
                FieldType::String
            };
        }

        proof {
            let ns = spec_field_nested(toks, pos0);
            assert(ns.out is Ok);
            assert(ns.pos == self.spec_pos());
            assert(ns.out->Ok_0.0 == field_type);
            assert(ns.out->Ok_0.1 == (match nested {
                Option::Some(b) => Option::Some(Box::new(crate::ast::view_schema(*b))),
                Option::None => Option::None::<Box<SpecSchemaBlock>>,
            }));
            assert(ns.out->Ok_0.2 == optional);
        }
        let mut mock: Option<MockValue> = None;
        let mut example: Option<MockValue> = None;
        let mut is_params = false;
        let ghost p_ann = self.spec_pos();
        proof {
            if toks[pos0].token_type != TokenType::Eof {
                assert(p_ann == step_to(toks, pos0, spec_field_nested(toks, pos0).pos));
            }
        }
        loop
            invariant
                self.wf(),
                self.toks() == toks,
                pos0 <= self.spec_pos(),
                toks[pos0].token_type != TokenType::Eof ==> pos0 < self.spec_pos(),
                spec_field_annotations(
                    toks,
                    self.spec_pos(),
                    view_opt_mock(mock),
                    view_opt_mock(example),
                    is_params,
                ) == spec_field_annotations(toks, p_ann, Option::None, Option::None, false),
            decreases self.spec_span(),
        {
            if !matches!(self.cur_type(), TokenType::At) {
                break;
            }
            self.next_token();
            let ann = self.cur_literal();
            self.next_token();
            if string_eq(&ann, "params") {
                is_params = true;
            } else if string_eq(&ann, "mock") || string_eq(&ann, "example") {
                match self.expect(TokenType::LParen) {
                    Err(e) => {
                        return Err(e);
                    },
                    Ok(_) => {},
                }
                let vt = self.cur_type();
                let value = if matches!(vt, TokenType::String) {
                    let v = MockValue::String(self.cur_literal());
                    self.next_token();
                    v
                } else if matches!(vt, TokenType::Number) {
                    let v = MockValue::Number(self.cur_literal());
                    self.next_token();
                    v
                } else if matches!(vt, TokenType::Ident) {
                    let lit = self.cur_literal();
                    let v = if string_eq(&lit, "true") {
                        MockValue::Boolean(true)
                    } else if string_eq(&lit, "false") {
                        MockValue::Boolean(false)
                    } else {
                        MockValue::String(lit)
                    };
                    self.next_token();
                    v
                } else {
                    MockValue::String(String::new())
                };
                match self.expect(TokenType::RParen) {
                    Err(e) => {
                        return Err(e);
                    },
                    Ok(_) => {},
                }
                if string_eq(&ann, "mock") {
                    mock = Some(value);
                } else {
                    example = Some(value);
                }
            }
        }

        let comment: Option<String> = if matches!(self.cur_type(), TokenType::Comment) {
            let c = self.cur_literal();
            self.next_token();
            Some(c)
        } else {
            None
        };

        let f = Field { name, field_type, optional, nested, mock, example, comment, is_params };
        proof {
            let st = spec_parse_field(toks, pos0);
            assert(f@ =~~= st.out->Ok_0);
        }
        Ok(f)
    }

    /// Parses one HTTP verb block inside an `api` block.
    pub fn parse_method_block(&mut self) -> (r: Result<MethodBlock, ParseError>)
        requires
            old(self).wf(),
        ensures
            final(self).wf(),
            final(self).toks() == old(self).toks(),
            final(self).spec_pos() >= old(self).spec_pos(),
            old(self).cur().token_type != TokenType::Eof ==> final(self).spec_pos() > old(
                self,
            ).spec_pos(),
            ({
                let st = spec_parse_method_block(old(self).toks(), old(self).spec_pos());
                &&& res_of(r) == st.out
                &&& final(self).spec_pos() == st.pos
            }),
        decreases old(self).spec_span(), 3int,
    {
        let ghost toks = self.toks();
        let ghost pos0 = self.spec_pos();
        let lit = self.cur_literal();
        let method = ascii_upper(lit.as_str());
        self.next_token();
        match self.expect(TokenType::LBrace) {
            Err(e) => {
                proof {
                    if toks[pos0].token_type != TokenType::Eof {
                        assert(adv(toks, pos0) == pos0 + 1);
                    }
                }
                return Err(e);
            },
            Ok(_) => {},
        }
        let mut mb = MethodBlock { method, name: None, description: None, request: None, response: None };
        proof {
            assert(mb@ =~~= spec_empty_method(spec_ascii_upper(toks[pos0].literal)));
        }
        loop
            invariant
                self.wf(),
                self.toks() == toks,
                pos0 < self.spec_pos(),
                mb.description is None,
                spec_method_items(toks, self.spec_pos(), mb@) == spec_parse_method_block(
                    toks,
                    pos0,
                ),
            decreases self.spec_span(),
        {
            let t = self.cur_type();
            if matches!(t, TokenType::RBrace) || matches!(t, TokenType::Eof) {
                break;
            }
            let ghost mb0 = mb@;
            if self.cur_is("name") {
                self.next_token();
                if matches!(self.cur_type(), TokenType::String) {
                    mb.name = Some(self.cur_literal());
                    self.next_token();
                }
            } else if self.cur_is("request") {
                self.next_token();
                match self.parse_schema_block() {
                    Err(e) => {
                        return Err(e);
                    },
                    Ok(sb) => {
                        let ghost sv = view_schema_of(sb);
                        mb.request = Some(sb);
                        proof {
                            assert(mb@ =~~= SpecMethodBlock { request: Option::Some(sv), ..mb0 });
                        }
                    },
                }
            } else if self.cur_is("response") {
                self.next_token();
                match self.parse_schema_block() {
                    Err(e) => {
                        return Err(e);
                    },
                    Ok(sb) => {
                        let ghost sv = view_schema_of(sb);
                        mb.response = Some(sb);
                        proof {
                            assert(mb@ =~~= SpecMethodBlock { response: Option::Some(sv), ..mb0 });
                        }
                    },
                }
            } else {
                self.next_token();
            }
        }
        match self.expect(TokenType::RBrace) {
            Err(e) => {
                return Err(e);
            },
            Ok(_) => {},
        }
        Ok(mb)
    }

    /// Parses an `api "<path>" { ... }` block.
    #[verifier::rlimit(100)]
    pub fn parse_api_block(&mut self) -> (r: Result<ApiBlock, ParseError>)
        requires
            old(self).wf(),
        ensures
            final(self).wf(),
            final(self).toks() == old(self).toks(),
            final(self).spec_pos() >= old(self).spec_pos(),
            old(self).cur().token_type != TokenType::Eof ==> final(self).spec_pos() > old(
                self,
            ).spec_pos(),
            ({
                let st = spec_parse_api_block(old(self).toks(), old(self).spec_pos());
                &&& res_of(r) == st.out
                &&& final(self).spec_pos() == st.pos
            }),
        decreases old(self).spec_span(), 5int,
    {
        let ghost toks = self.toks();
        let ghost pos0 = self.spec_pos();
        self.next_token();
        let path = self.cur_literal();
        self.next_token();
        match self.expect(TokenType::LBrace) {
            Err(e) => {
                return Err(e);
            },
            Ok(_) => {},
        }
        let mut methods: Vec<MethodBlock> = Vec::new();
        let mut pending: Option<String> = None;
        let ghost p_start = self.spec_pos();
        proof {
            assert(methods@.map_values(|m: MethodBlock| m@) =~= Seq::<SpecMethodBlock>::empty());
            assert(spec_parse_api_block(toks, pos0).out matches Result::Err(e) ==> spec_api_items(
                toks,
                p_start,
                Seq::empty(),
                Option::None,
            ).out matches Result::Err(e2) && e == e2);
        }
        loop
            invariant
                self.wf(),
                self.toks() == toks,
                pos0 < self.spec_pos(),
                spec_api_items(
                    toks,
                    self.spec_pos(),
                    methods@.map_values(|m: MethodBlock| m@),
                    view_opt_string(pending),
                ) == spec_api_items(toks, p_start, Seq::empty(), Option::None),
                ({
                    let st = spec_parse_api_block(toks, pos0);
                    let items = spec_api_items(toks, p_start, Seq::empty(), Option::None);
                    &&& (items.out is Err ==> st.out is Err && st.out->Err_0 == items.out->Err_0
                        && st.pos == items.pos)
                    &&& (items.out is Ok ==> st.out is Ok && st.out->Ok_0 == SpecApiBlock {
                        path: toks[adv(toks, pos0)].literal,
                        methods: items.out->Ok_0,
                    } && st.pos == items.pos)
                }),
            decreases self.spec_span(),
        {
            let t = self.cur_type();
            if matches!(t, TokenType::RBrace) || matches!(t, TokenType::Eof) {
                break;
            }
            if matches!(t, TokenType::DocComment) {
                pending = Some(self.cur_literal());
                self.next_token();
            } else {
                let lit = self.cur_literal();
                if is_http_verb(&lit) {
                    let ghost ms0 = methods@.map_values(|m: MethodBlock| m@);
                    match self.parse_method_block() {
                        Err(e) => {
                            return Err(e);
                        },
                        Ok(m) => {
                            let mut m2 = m;
                            m2.description = pending;
                            pending = None;
                            let ghost mv = m2@;
                            methods.push(m2);
                            proof {
                                assert(methods@.map_values(|m: MethodBlock| m@) =~= ms0.push(mv));
                            }
                        },
                    }
                } else {
                    self.next_token();
                }
            }
        }
        match self.expect(TokenType::RBrace) {
            Err(e) => {
                return Err(e);
            },
            Ok(_) => {},
        }
        let blk = ApiBlock { path, methods };
        proof {
            let st = spec_parse_api_block(toks, pos0);
            assert(blk@ =~~= st.out->Ok_0);
        }
        Ok(blk)
    }

    /// Parses an `event "<name>" { ... }` block of a WebSocket block.
    pub fn parse_ws_event(&mut self) -> (r: Result<WsEvent, ParseError>)
        requires
            old(self).wf(),
        ensures
            final(self).wf(),
            final(self).toks() == old(self).toks(),
            final(self).spec_pos() >= old(self).spec_pos(),
            old(self).cur().token_type != TokenType::Eof ==> final(self).spec_pos() > old(
                self,
            ).spec_pos(),
            ({
                let st = spec_parse_ws_event(old(self).toks(), old(self).spec_pos());
                &&& res_of(r) == st.out
                &&& final(self).spec_pos() == st.pos
            }),
        decreases old(self).spec_span(), 3int,
    {
        let ghost toks = self.toks();
        let ghost pos0 = self.spec_pos();
        self.next_token();
        let name = self.cur_literal();
        self.next_token();
        match self.expect(TokenType::LBrace) {
            Err(e) => {
                return Err(e);
            },
            Ok(_) => {},
        }
        let mut ev = WsEvent { name, request: None, response: None };
        proof {
            assert(ev@ =~~= spec_empty_ws_event(toks[adv(toks, pos0)].literal));
        }
        loop
            invariant
                self.wf(),
                self.toks() == toks,
                pos0 < self.spec_pos(),
                spec_ws_event_items(toks, self.spec_pos(), ev@) == spec_parse_ws_event(toks, pos0),
            decreases self.spec_span(),
        {
            let t = self.cur_type();
            if matches!(t, TokenType::RBrace) || matches!(t, TokenType::Eof) {
                break;
            }
            let ghost ev0 = ev@;
            if self.cur_is("request") {
                self.next_token();
                match self.parse_schema_block() {
                    Err(e) => {
                        return Err(e);
                    },
                    Ok(sb) => {
                        let ghost sv = view_schema_of(sb);
                        ev.request = Some(sb);
                        proof {
                            assert(ev@ =~~= SpecWsEvent { request: Option::Some(sv), ..ev0 });
                        }
                    },
                }
            } else if self.cur_is("response") {
                self.next_token();
                match self.parse_schema_block() {
                    Err(e) => {
                        return Err(e);
                    },
                    Ok(sb) => {
                        let ghost sv = view_schema_of(sb);
                        ev.response = Some(sb);
                        proof {
                            assert(ev@ =~~= SpecWsEvent { response: Option::Some(sv), ..ev0 });
                        }
                    },
                }
            } else {
                self.next_token();
            }
        }
        match self.expect(TokenType::RBrace) {
            Err(e) => {
                return Err(e);
            },
            Ok(_) => {},
        }
        Ok(ev)
    }

    /// Parses a `ws`/`socketio` block.
    #[verifier::rlimit(100)]
    pub fn parse_ws_block(&mut self) -> (r: Result<WsBlock, ParseError>)
        requires
            old(self).wf(),
        ensures
            final(self).wf(),
            final(self).toks() == old(self).toks(),
            final(self).spec_pos() >= old(self).spec_pos(),
            old(self).cur().token_type != TokenType::Eof ==> final(self).spec_pos() > old(
                self,
            ).spec_pos(),
            ({
                let st = spec_parse_ws_block(old(self).toks(), old(self).spec_pos());
                &&& res_of(r) == st.out
                &&& final(self).spec_pos() == st.pos
            }),
        decreases old(self).spec_span(), 5int,
    {
        let ghost toks = self.toks();
        let ghost pos0 = self.spec_pos();
        self.next_token();
        let url = self.cur_literal();
        self.next_token();
        match self.expect(TokenType::LBrace) {
            Err(e) => {
                return Err(e);
            },
            Ok(_) => {},
        }
        let mut ws = WsBlock {
            url,
            events: Vec::new(),
            name: None,
            description: None,
            auth: None,
            connect_headers: None,
        };
        let mut pending: Option<String> = None;
        proof {
            assert(ws@ =~~= spec_empty_ws(toks[adv(toks, pos0)].literal));
        }
        loop
            invariant
                self.wf(),
                self.toks() == toks,
                pos0 < self.spec_pos(),
                ws.description is None,
                spec_ws_items(toks, self.spec_pos(), ws@, view_opt_string(pending))
                    == spec_parse_ws_block(toks, pos0),
            decreases self.spec_span(),
        {
            let t = self.cur_type();
            if matches!(t, TokenType::RBrace) || matches!(t, TokenType::Eof) {
                break;
            }
            let ghost ws0 = ws@;
            if matches!(t, TokenType::DocComment) {
                pending = Some(self.cur_literal());
                self.next_token();
            } else if self.cur_is("name") {
                self.next_token();
                if matches!(self.cur_type(), TokenType::String) {
                    ws.name = Some(self.cur_literal());
                    self.next_token();
                }
            } else if self.cur_is("auth") {
                self.next_token();
                match self.parse_schema_block() {
                    Err(e) => {
                        return Err(e);
                    },
                    Ok(sb) => {
                        let ghost sv = view_schema_of(sb);
                        ws.auth = Some(sb);
                        proof {
                            assert(ws@ =~~= SpecWsBlock { auth: Option::Some(sv), ..ws0 });
                        }
                    },
                }
            } else if self.cur_is("headers") {
                self.next_token();
                match self.parse_schema_block() {
                    Err(e) => {
                        return Err(e);
                    },
                    Ok(sb) => {
                        let ghost sv = view_schema_of(sb);
                        ws.connect_headers = Some(sb);
                        proof {
                            assert(ws@ =~~= SpecWsBlock {
                                connect_headers: Option::Some(sv),
                                ..ws0
                            });
                        }
                    },
                }
            } else if self.cur_is("event") {
                let ghost evs0 = ws.events@.map_values(|e: WsEvent| e@);
                match self.parse_ws_event() {
                    Err(e) => {
                        return Err(e);
                    },
                    Ok(ev) => {
                        let ghost evv = ev@;
                        ws.events.push(ev);
                        pending = None;
                        proof {
                            assert(ws.events@.map_values(|e: WsEvent| e@) =~= evs0.push(evv));
                            assert(ws@ =~~= SpecWsBlock { events: evs0.push(evv), ..ws0 });
                        }
                    },
                }
            } else {
                self.next_token();
            }
        }
        match self.expect(TokenType::RBrace) {
            Err(e) => {
                return Err(e);
            },
            Ok(_) => {},
        }
        if ws.name.is_some() {
        }
        let desc_missing = match &ws.description {
            Some(_) => false,
            None => true,
        };
        if desc_missing {
            ws.description = pending;
        }
        Ok(ws)
    }

    /// Parses a `category "<name>" { ... }` block; `counter` is the
    /// parse-wide category counter.
    #[verifier::rlimit(100)]
    pub fn parse_category_block(&mut self, counter: &mut usize) -> (r: Result<
        CategoryBlock,
        ParseError,
    >)
        requires
            old(self).wf(),
            *old(counter) <= old(self).spec_pos(),
        ensures
            final(self).wf(),
            final(self).toks() == old(self).toks(),
            final(self).spec_pos() >= old(self).spec_pos(),
            old(self).cur().token_type != TokenType::Eof ==> final(self).spec_pos() > old(
                self,
            ).spec_pos(),
            *final(counter) <= final(self).spec_pos(),
            *final(counter) >= *old(counter),
            ({
                let st = spec_parse_category_block(
                    old(self).toks(),
                    old(self).spec_pos(),
                    *old(counter) as int,
                );
                &&& res_of(r) == st.out
                &&& final(self).spec_pos() == st.pos
                &&& *final(counter) as int == st.counter
            }),
        decreases old(self).spec_span(), 5int,
    {
        let ghost toks = self.toks();
        let ghost pos0 = self.spec_pos();
        let ghost c0 = *counter as int;
        self.next_token();
        let id_name = self.cur_literal();
        self.next_token();
        match self.expect(TokenType::LBrace) {
            Err(e) => {
                return Err(e);
            },
            Ok(_) => {},
        }
        *counter = *counter + 1;
        let mut id = String::from_str("cat-");
        id.append(id_name.as_str());
        id.append("-");
        push_dec(&mut id, *counter as u64);
        proof {
            assert(id@ =~= spec_category_id(toks[adv(toks, pos0)].literal, c0 + 1));
        }
        let mut cat = CategoryBlock {
            id,
            name: None,
            desc: None,
            prefix: None,
            apis: Vec::new(),
            ws_apis: Vec::new(),
            socketio_apis: Vec::new(),
            sse_apis: Vec::new(),
            children: Vec::new(),
        };
        proof {
            assert(cat@ =~~= spec_empty_category(
                spec_category_id(toks[adv(toks, pos0)].literal, c0 + 1),
            ));
        }
        loop
            invariant
                self.wf(),
                self.toks() == toks,
                pos0 < self.spec_pos(),
                *counter <= self.spec_pos(),
                *counter >= *old(counter),
                spec_category_items(toks, self.spec_pos(), cat@, *counter as int)
                    == spec_parse_category_block(toks, pos0, c0),
            decreases self.spec_span(),
        {
            let t = self.cur_type();
            if matches!(t, TokenType::RBrace) || matches!(t, TokenType::Eof) {
                break;
            }
            let ghost cat0 = cat@;
            if self.cur_is("name") {
                self.next_token();
                if matches!(self.cur_type(), TokenType::String) {
                    cat.name = Some(self.cur_literal());
                    self.next_token();
                }
            } else if self.cur_is("desc") {
                self.next_token();
                if matches!(self.cur_type(), TokenType::String) {
                    cat.desc = Some(self.cur_literal());
                    self.next_token();
                }
            } else if self.cur_is("prefix") {
                self.next_token();
                cat.prefix = Some(self.cur_literal());
                self.next_token();
            } else if self.cur_is("api") {
                let ghost as0 = cat.apis@.map_values(|a: ApiBlock| a@);
                match self.parse_api_block() {
                    Err(e) => {
                        return Err(e);
                    },
                    Ok(a) => {
                        let ghost av = a@;
                        cat.apis.push(a);
                        proof {
                            assert(cat.apis@.map_values(|a: ApiBlock| a@) =~= as0.push(av));
                            assert(cat@ =~~= SpecCategoryBlock { apis: as0.push(av), ..cat0 });
                        }
                    },
                }
            } else if self.cur_is("ws") {
                let ghost ws0 = cat.ws_apis@.map_values(|w: WsBlock| w@);
                match self.parse_ws_block() {
                    Err(e) => {
                        return Err(e);
                    },
                    Ok(w) => {
                        let ghost wv = w@;
                        cat.ws_apis.push(w);
                        proof {
                            assert(cat.ws_apis@.map_values(|w: WsBlock| w@) =~= ws0.push(wv));
                            assert(cat@ =~~= SpecCategoryBlock { ws_apis: ws0.push(wv), ..cat0 });
                        }
                    },
                }
            } else if self.cur_is("socketio") {
                let ghost so0 = cat.socketio_apis@.map_values(|w: WsBlock| w@);
                match self.parse_ws_block() {
                    Err(e) => {
                        return Err(e);
                    },
                    Ok(w) => {
                        let ghost wv = w@;
                        cat.socketio_apis.push(w);
                        proof {
                            assert(cat.socketio_apis@.map_values(|w: WsBlock| w@) =~= so0.push(
                                wv,
                            ));
                            assert(cat@ =~~= SpecCategoryBlock {
                                socketio_apis: so0.push(wv),
                                ..cat0
                            });
                        }
                    },
                }
            } else if self.cur_is("category") {
                let ghost ch0 = cat.children@;
                match self.parse_category_block(counter) {
                    Err(e) => {
                        return Err(e);
                    },
                    Ok(child) => {
                        let ghost cv = crate::ast::view_category(child);
                        cat.children.push(child);
                        proof {
                            lemma_view_category_list_push(ch0, cat.children@[cat.children@.len() - 1]);
                            assert(cat.children@ =~= ch0.push(
                                cat.children@[cat.children@.len() - 1],
                            ));
                            assert(cat@ =~~= SpecCategoryBlock {
                                children: crate::ast::view_category_list(ch0).push(cv),
                                ..cat0
                            });
                        }
                    },
                }
            } else {
                self.next_token();
            }
        }
        match self.expect(TokenType::RBrace) {
            Err(e) => {
                return Err(e);
            },
            Ok(_) => {},
        }
        Ok(cat)
    }

    /// Parses a whole document from the current position: top-level
    /// statements are dispatched by keyword, anything else is skipped.
    /// One dispatch step of the top-level parse; `config` and `counter`
    /// accumulate across steps.
    #[verifier::rlimit(100)]
    #[verifier::spinoff_prover]
    fn parse_top_step(&mut self, config: &mut RqcConfig, counter: &mut usize) -> (r: Result<
        (),
        ParseError,
    >)
        requires
            old(self).wf(),
            old(self).cur().token_type != TokenType::Eof,
            *old(counter) <= old(self).spec_pos(),
        ensures
            final(self).wf(),
            final(self).toks() == old(self).toks(),
            final(self).spec_pos() > old(self).spec_pos(),
            *final(counter) <= final(self).spec_pos(),
            ({
                let before = spec_parse_top(
                    old(self).toks(),
                    old(self).spec_pos(),
                    old(config)@,
                    *old(counter) as int,
                );
                &&& (r is Err ==> before.out is Err && before.out->Err_0 == r->Err_0@)
                &&& (r is Ok ==> before == spec_parse_top(
                    old(self).toks(),
                    final(self).spec_pos(),
                    final(config)@,
                    *final(counter) as int,
                ))
            }),
        decreases old(self).spec_span(), 6int,
    {
        let ghost toks = self.toks();
        let ghost pos0 = self.spec_pos();
        let ghost cfg0 = config@;
        if self.cur_is("config") {
            match self.parse_config_block() {
                Err(e) => {
                    return Err(e);
                },
                Ok(c) => {
                    let ghost cv = c@;
                    config.config = Some(c);
                    proof {
                        assert(config@ =~~= SpecRqcConfig { config: Option::Some(cv), ..cfg0 });
                    }
                },
            }
        } else if self.cur_is("api") {
            let ghost as0 = config.apis@.map_values(|a: ApiBlock| a@);
            match self.parse_api_block() {
                Err(e) => {
                    return Err(e);
                },
                Ok(a) => {
                    let ghost av = a@;
                    config.apis.push(a);
                    proof {
                        assert(config.apis@.map_values(|a: ApiBlock| a@) =~= as0.push(av));
                        assert(config@ =~~= SpecRqcConfig { apis: as0.push(av), ..cfg0 });
                    }
                },
            }
        } else if self.cur_is("ws") {
            let ghost ws0 = config.ws_apis@.map_values(|w: WsBlock| w@);
            match self.parse_ws_block() {
                Err(e) => {
                    return Err(e);
                },
                Ok(w) => {
                    let ghost wv = w@;
                    config.ws_apis.push(w);
                    proof {
                        assert(config.ws_apis@.map_values(|w: WsBlock| w@) =~= ws0.push(wv));
                        assert(config@ =~~= SpecRqcConfig { ws_apis: ws0.push(wv), ..cfg0 });
                    }
                },
            }
        } else if self.cur_is("socketio") {
            let ghost so0 = config.socketio_apis@.map_values(|w: WsBlock| w@);
            match self.parse_ws_block() {
                Err(e) => {
                    return Err(e);
                },
                Ok(w) => {
                    let ghost wv = w@;
                    config.socketio_apis.push(w);
                    proof {
                        assert(config.socketio_apis@.map_values(|w: WsBlock| w@) =~= so0.push(
                            wv,
                        ));
                        assert(config@ =~~= SpecRqcConfig {
                            socketio_apis: so0.push(wv),
                            ..cfg0
                        });
                    }
                },
            }
        } else if self.cur_is("import") {
            let ghost im0 = crate::ast::view_string_list(config.imports@);
            match self.parse_import() {
                Err(e) => {
                    return Err(e);
                },
                Ok(pth) => {
                    let ghost pv = pth@;
                    config.imports.push(pth);
                    proof {
                        assert(crate::ast::view_string_list(config.imports@) =~= im0.push(pv));
                        assert(config@ =~~= SpecRqcConfig { imports: im0.push(pv), ..cfg0 });
                    }
                },
            }
        } else if self.cur_is("category") {
            let ghost cats0 = config.categories@;
            let ghost cs0 = crate::ast::view_category_list(config.categories@);
            match self.parse_category_block(counter) {
                Err(e) => {
                    return Err(e);
                },
                Ok(c) => {
                    let ghost cv = crate::ast::view_category(c);
                    config.categories.push(c);
                    proof {
                        assert(config.categories@ =~= cats0.push(
                            config.categories@[config.categories@.len() - 1],
                        ));
                        lemma_view_category_list_push(
                            cats0,
                            config.categories@[config.categories@.len() - 1],
                        );
                        assert(config@ =~~= SpecRqcConfig { categories: cs0.push(cv), ..cfg0 });
                    }
                },
            }
        } else {
            self.next_token();
        }
        Ok(())
    }

    /// Parses a whole document from the current position: top-level
    /// statements are dispatched by keyword, anything else is skipped.
    pub fn parse(&mut self) -> (r: Result<RqcConfig, ParseError>)
        requires
            old(self).wf(),
        ensures
            final(self).wf(),
            final(self).toks() == old(self).toks(),
            res_of(r) == spec_parse_top(
                old(self).toks(),
                old(self).spec_pos(),
                spec_empty_config(),
                0,
            ).out,
        decreases old(self).spec_span(), 7int,
    {
        let ghost toks = self.toks();
        let ghost pos0 = self.spec_pos();
        let mut config = RqcConfig::empty();
        let mut counter: usize = 0;
        loop
            invariant
                self.wf(),
                self.toks() == toks,
                counter <= self.spec_pos(),
                pos0 <= self.spec_pos(),
                spec_parse_top(toks, self.spec_pos(), config@, counter as int) == spec_parse_top(
                    toks,
                    pos0,
                    spec_empty_config(),
                    0,
                ),
            decreases self.spec_span(),
        {
            if matches!(self.cur_type(), TokenType::Eof) {
                break;
            }
            match self.parse_top_step(&mut config, &mut counter) {
                Err(e) => {
                    return Err(e);
                },
                Ok(_) => {},
            }
        }
        Ok(config)
    }
}

/// The model of a schema value (a naming convenience for proofs).
pub open spec fn view_schema_of(s: SchemaBlock) -> SpecSchemaBlock {
    crate::ast::view_schema(s)
}

/// Parses one document text to a `RqcConfig`, or the first parse error.
pub fn parse_text(input: &str) -> (r: Result<RqcConfig, ParseError>)
    ensures
        res_of(r) == spec_parse_text(input@),
{
    let mut p = Parser::new(input);
    p.parse()
}
} // verus!
