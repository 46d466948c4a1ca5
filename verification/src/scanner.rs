use vstd::prelude::*;
use vstd::string::*;

use crate::error::LoxError;
use crate::error::LoxErrorKind;
use crate::error::SpecError;
use crate::object::opt_obj_view;
use crate::object::Object;
use crate::object::SpecObject;
use crate::text::chars_string;
use crate::text::str_chars;
use crate::text::str_eq;
use crate::token_type::TokenType;
use crate::tokens::lit_consistent;
use crate::tokens::literals_wf;
use crate::tokens::tokens_wf;
use crate::tokens::SpecToken;
use crate::tokens::Token;

verus! {

// ---------------------------------------------------------------------------
// Character classes
// ---------------------------------------------------------------------------
/// An ASCII decimal digit.
pub open spec fn is_digit(c: char) -> bool {
    ('0' as u32) <= (c as u32) && (c as u32) <= ('9' as u32)
}

/// An ASCII letter or an underscore: what may begin an identifier.
pub open spec fn is_alpha(c: char) -> bool {
    (('a' as u32) <= (c as u32) && (c as u32) <= ('z' as u32)) || (('A' as u32) <= (c as u32) && (c
        as u32) <= ('Z' as u32)) || c == '_'
}

/// What may continue an identifier: a letter, an underscore, or a digit.
pub open spec fn is_alnum(c: char) -> bool {
    is_alpha(c) || is_digit(c)
}

// ---------------------------------------------------------------------------
// Maximal-run helpers
// ---------------------------------------------------------------------------
/// The end of the run of digits starting at `j`: the first position at or
/// after `j` holding no digit, or the end of the input.
pub open spec fn digits_end(src: Seq<char>, j: int) -> int
    decreases src.len() - j,
{
    if j < 0 || j >= src.len() {
        j
    } else if is_digit(src[j]) {
        digits_end(src, j + 1)
    } else {
        j
    }
}

/// The end of the run of identifier characters starting at `j`.
pub open spec fn ident_end(src: Seq<char>, j: int) -> int
    decreases src.len() - j,
{
    if j < 0 || j >= src.len() {
        j
    } else if is_alnum(src[j]) {
        ident_end(src, j + 1)
    } else {
        j
    }
}

/// The position of the closing double quote at or after `j`, or the length
/// of the input if there is none.
pub open spec fn string_close(src: Seq<char>, j: int) -> int
    decreases src.len() - j,
{
    if j < 0 || j >= src.len() {
        src.len() as int
    } else if src[j] == '"' {
        j
    } else {
        string_close(src, j + 1)
    }
}

/// The position of the next newline at or after `j`, or the length of the
/// input if there is none: where a line comment ends.
pub open spec fn line_end(src: Seq<char>, j: int) -> int
    decreases src.len() - j,
{
    if j < 0 || j >= src.len() {
        src.len() as int
    } else if src[j] == '\n' {
        j
    } else {
        line_end(src, j + 1)
    }
}

/// How many newline characters `s` holds.
pub open spec fn newline_count(s: Seq<char>) -> nat
    decreases s.len(),
{
    if s.len() == 0 {
        0
    } else {
        newline_count(s.drop_last()) + (if s.last() == '\n' {
            1nat
        } else {
            0nat
        })
    }
}

pub proof fn lemma_digits_end_bounds(src: Seq<char>, j: int)
    requires
        0 <= j <= src.len(),
    ensures
        j <= digits_end(src, j) <= src.len(),
    decreases src.len() - j,
{
    if j < src.len() && is_digit(src[j]) {
        lemma_digits_end_bounds(src, j + 1);
    }
}

pub proof fn lemma_ident_end_bounds(src: Seq<char>, j: int)
    requires
        0 <= j <= src.len(),
    ensures
        j <= ident_end(src, j) <= src.len(),
    decreases src.len() - j,
{
    if j < src.len() && is_alnum(src[j]) {
        lemma_ident_end_bounds(src, j + 1);
    }
}

pub proof fn lemma_string_close_bounds(src: Seq<char>, j: int)
    requires
        0 <= j <= src.len(),
    ensures
        j <= string_close(src, j) <= src.len(),
    decreases src.len() - j,
{
    if j < src.len() && src[j] != '"' {
        lemma_string_close_bounds(src, j + 1);
    }
}

/// Appending one character adds one to the newline count exactly when that
/// character is a newline.
pub proof fn lemma_newline_count_push(s: Seq<char>, c: char)
    ensures
        newline_count(s.push(c)) == newline_count(s) + (if c == '\n' {
            1nat
        } else {
            0nat
        }),
{
    assert(s.push(c).drop_last() =~= s);
    assert(s.push(c).last() == c);
}

pub proof fn lemma_line_end_bounds(src: Seq<char>, j: int)
    requires
        0 <= j <= src.len(),
    ensures
        j <= line_end(src, j) <= src.len(),
    decreases src.len() - j,
{
    if j < src.len() && src[j] != '\n' {
        lemma_line_end_bounds(src, j + 1);
    }
}

// ---------------------------------------------------------------------------
// Canonical number text
// ---------------------------------------------------------------------------
/// Drops leading `0` characters, always keeping at least one character.
pub open spec fn strip_leading_zeros(s: Seq<char>) -> Seq<char>
    decreases s.len(),
{
    if s.len() > 1 && s[0] == '0' {
        strip_leading_zeros(s.skip(1))
    } else {
        s
    }
}

/// Drops trailing `0` characters, possibly leaving nothing.
pub open spec fn strip_trailing_zeros(s: Seq<char>) -> Seq<char>
    decreases s.len(),
{
    if s.len() > 0 && s.last() == '0' {
        strip_trailing_zeros(s.drop_last())
    } else {
        s
    }
}

/// The canonical decimal text for a number literal scanned as an integer
/// part `ip` and a (possibly empty) fractional part `fp`: leading zeros of
/// the integer part and trailing zeros of the fractional part are dropped,
/// and the decimal point appears only if fractional digits remain.
pub open spec fn canon_num(ip: Seq<char>, fp: Seq<char>) -> Seq<char> {
    let f = strip_trailing_zeros(fp);
    if f.len() == 0 {
        strip_leading_zeros(ip)
    } else {
        strip_leading_zeros(ip) + seq!['.'] + f
    }
}

// ---------------------------------------------------------------------------
// The keyword table
// ---------------------------------------------------------------------------
/// The fixed keyword table: the token category for `s` if `s` is a keyword.
pub open spec fn keyword_kind(s: Seq<char>) -> Option<TokenType> {
    if s == "and"@ {
        Some(TokenType::And)
    } else if s == "class"@ {
        Some(TokenType::Class)
    } else if s == "else"@ {
        Some(TokenType::Else)
    } else if s == "false"@ {
        Some(TokenType::False)
    } else if s == "for"@ {
        Some(TokenType::For)
    } else if s == "fun"@ {
        Some(TokenType::Fun)
    } else if s == "if"@ {
        Some(TokenType::If)
    } else if s == "nil"@ {
        Some(TokenType::Nil)
    } else if s == "or"@ {
        Some(TokenType::Or)
    } else if s == "print"@ {
        Some(TokenType::Print)
    } else if s == "return"@ {
        Some(TokenType::Return)
    } else if s == "super"@ {
        Some(TokenType::Super)
    } else if s == "this"@ {
        Some(TokenType::This)
    } else if s == "true"@ {
        Some(TokenType::True)
    } else if s == "var"@ {
        Some(TokenType::Var)
    } else if s == "let"@ {
        Some(TokenType::Let)
    } else if s == "while"@ {
        Some(TokenType::While)
    } else if s == "import"@ {
        Some(TokenType::Import)
    } else {
        None
    }
}

/// The category of an identifier-shaped lexeme: its keyword category if it
/// is a keyword, the generic identifier category otherwise.
pub open spec fn kw_or_ident(s: Seq<char>) -> TokenType {
    match keyword_kind(s) {
        Some(k) => k,
        None => TokenType::Identifier,
    }
}

// ---------------------------------------------------------------------------
// One scanning step
// ---------------------------------------------------------------------------
/// What consuming one lexeme starting at position `i` does: emit a token,
/// skip (whitespace, newline, or a comment), or fail.
pub enum SpecStep {
    Emit { kind: TokenType, lit: Option<SpecObject>, next: int, line: nat },
    Skip { next: int, line: nat },
    Fail { err: LoxErrorKind, line: nat },
}

/// Emits a token of `kind` with no literal for the single character at `i`.
pub open spec fn emit_one(kind: TokenType, i: int, line: nat) -> SpecStep {
    SpecStep::Emit { kind, lit: None, next: i + 1, line }
}

/// One-character lookahead for `! = < >`: the two-character category if the
/// next character is `=`, the one-character category otherwise.
pub open spec fn two_char_step(
    src: Seq<char>,
    i: int,
    line: nat,
    two: TokenType,
    one: TokenType,
) -> SpecStep {
    if i + 1 < src.len() && src[i + 1] == '=' {
        SpecStep::Emit { kind: two, lit: None, next: i + 2, line }
    } else {
        SpecStep::Emit { kind: one, lit: None, next: i + 1, line }
    }
}

/// A string literal beginning with the quote at `i`: everything up to the
/// next quote, or an `UnterminatedString` failure at the line the string
/// began.  Newlines inside the string advance the line counter.
pub open spec fn string_step(src: Seq<char>, i: int, line: nat) -> SpecStep {
    let close = string_close(src, i + 1);
    if close >= src.len() {
        SpecStep::Fail { err: LoxErrorKind::UnterminatedString, line }
    } else {
        SpecStep::Emit {
            kind: TokenType::Str,
            lit: Some(SpecObject::Str(src.subrange(i + 1, close))),
            next: close + 1,
            line: line + newline_count(src.subrange(i + 1, close)),
        }
    }
}

/// A number literal beginning with the digit at `i`: the maximal digit run,
/// then optionally one `.` followed by at least one digit and the maximal
/// digit run after it.  A trailing `.` with no digit after it is left for
/// the next step.
pub open spec fn number_step(src: Seq<char>, i: int, line: nat) -> SpecStep {
    let j = digits_end(src, i + 1);
    if j < src.len() && src[j] == '.' && j + 1 < src.len() && is_digit(src[j + 1]) {
        let k = digits_end(src, j + 1);
        SpecStep::Emit {
            kind: TokenType::Number,
            lit: Some(SpecObject::Num(canon_num(src.subrange(i, j), src.subrange(j + 1, k)))),
            next: k,
            line,
        }
    } else {
        SpecStep::Emit {
            kind: TokenType::Number,
            lit: Some(SpecObject::Num(canon_num(src.subrange(i, j), Seq::<char>::empty()))),
            next: j,
            line,
        }
    }
}

/// A `/` at `i`: a line comment if another `/` follows (skipped up to, but
/// not including, the next newline), the division token otherwise.
pub open spec fn slash_step(src: Seq<char>, i: int, line: nat) -> SpecStep {
    if i + 1 < src.len() && src[i + 1] == '/' {
        SpecStep::Skip { next: line_end(src, i + 2), line }
    } else {
        emit_one(TokenType::Slash, i, line)
    }
}

/// An identifier or keyword beginning with the letter or underscore at `i`:
/// the maximal run of identifier characters, looked up in the keyword table.
pub open spec fn ident_step(src: Seq<char>, i: int, line: nat) -> SpecStep {
    let j = ident_end(src, i + 1);
    SpecStep::Emit { kind: kw_or_ident(src.subrange(i, j)), lit: None, next: j, line }
}

/// Classifies the character at position `i` and says what consuming one
/// lexeme from there does.  This is the scanner's single-step contract.
pub open spec fn scan_step(src: Seq<char>, i: int, line: nat) -> SpecStep
    recommends
        0 <= i < src.len(),
{
    let c = src[i];
    if c == ' ' || c == '\t' || c == '\r' {
        SpecStep::Skip { next: i + 1, line }
    } else if c == '\n' {
        SpecStep::Skip { next: i + 1, line: line + 1 }
    } else if c == '.' {
        emit_one(TokenType::Dot, i, line)
    } else if c == '(' {
        emit_one(TokenType::LeftParen, i, line)
    } else if c == ')' {
        emit_one(TokenType::RightParen, i, line)
    } else if c == '{' {
        emit_one(TokenType::LeftBrace, i, line)
    } else if c == '}' {
        emit_one(TokenType::RightBrace, i, line)
    } else if c == '[' {
        emit_one(TokenType::LeftBracket, i, line)
    } else if c == ']' {
        emit_one(TokenType::RightBracket, i, line)
    } else if c == ',' {
        emit_one(TokenType::Comma, i, line)
    } else if c == '-' {
        emit_one(TokenType::Minus, i, line)
    } else if c == '+' {
        emit_one(TokenType::Plus, i, line)
    } else if c == ';' {
        emit_one(TokenType::Semicolon, i, line)
    } else if c == '*' {
        emit_one(TokenType::Star, i, line)
    } else if c == '!' {
        two_char_step(src, i, line, TokenType::BangEqual, TokenType::Bang)
    } else if c == '=' {
        two_char_step(src, i, line, TokenType::EqualEqual, TokenType::Equal)
    } else if c == '<' {
        two_char_step(src, i, line, TokenType::LessEqual, TokenType::Less)
    } else if c == '>' {
        two_char_step(src, i, line, TokenType::GreaterEqual, TokenType::Greater)
    } else if c == '"' {
        string_step(src, i, line)
    } else if is_digit(c) {
        number_step(src, i, line)
    } else if c == '/' {
        slash_step(src, i, line)
    } else if is_alpha(c) {
        ident_step(src, i, line)
    } else {
        SpecStep::Fail { err: LoxErrorKind::UnexpectedCharacter(c), line }
    }
}

/// Every step consumes at least one character and stays inside the input,
/// and an emitted token is never of the internal `Unknown` category nor the
/// end marker.
pub proof fn lemma_scan_step_advances(src: Seq<char>, i: int, line: nat)
    requires
        0 <= i < src.len(),
    ensures
        match scan_step(src, i, line) {
            SpecStep::Emit { kind, next, .. } => i < next <= src.len() && kind
                != TokenType::Unknown && kind != TokenType::Eof,
            SpecStep::Skip { next, .. } => i < next <= src.len(),
            SpecStep::Fail { .. } => true,
        },
{
    let c = src[i];
    if c == '"' {
        lemma_string_close_bounds(src, i + 1);
    } else if is_digit(c) {
        lemma_digits_end_bounds(src, i + 1);
        let j = digits_end(src, i + 1);
        if j < src.len() && src[j] == '.' && j + 1 < src.len() && is_digit(src[j + 1]) {
            lemma_digits_end_bounds(src, j + 1);
        }
    } else if c == '/' {
        if i + 1 < src.len() && src[i + 1] == '/' {
            lemma_line_end_bounds(src, i + 2);
        }
    } else if is_alpha(c) {
        lemma_ident_end_bounds(src, i + 1);
    }
}

// ---------------------------------------------------------------------------
// The full scan
// ---------------------------------------------------------------------------
/// The end marker for line `line`.
pub open spec fn eof_token(line: nat) -> SpecToken {
    SpecToken { kind: TokenType::Eof, lexeme: Seq::<char>::empty(), literal: None, line }
}

/// The tokens of `src` from position `i` onward, with the line counter at
/// `line`, ending with exactly one end marker — or the first fatal error.
/// Each emitted token's lexeme is the exact source text it was derived from.
pub open spec fn scan_from(src: Seq<char>, i: int, line: nat) -> Result<Seq<SpecToken>, SpecError>
    decreases src.len() - i,
        via scan_from_decreases
{
    if i < 0 || i >= src.len() {
        Ok(seq![eof_token(line)])
    } else {
        match scan_step(src, i, line) {
            SpecStep::Emit { kind, lit, next, line: line2 } => {
                let tok = SpecToken {
                    kind,
                    lexeme: src.subrange(i, next),
                    literal: lit,
                    line: line2,
                };
                match scan_from(src, next, line2) {
                    Ok(rest) => Ok(seq![tok] + rest),
                    Err(e) => Err(e),
                }
            },
            SpecStep::Skip { next, line: line2 } => scan_from(src, next, line2),
            SpecStep::Fail { err, line: line2 } => Err(
                SpecError { kind: err, line: line2, token: None },
            ),
        }
    }
}

#[via_fn]
proof fn scan_from_decreases(src: Seq<char>, i: int, line: nat) {
    if 0 <= i && i < src.len() {
        lemma_scan_step_advances(src, i, line);
    }
}

/// Every token sequence the scan produces is well-formed: it ends with
/// exactly one end marker, no token is of the internal `Unknown` category,
/// and every token's literal payload agrees with its category.
pub proof fn lemma_scan_from_wf(src: Seq<char>, i: int, line: nat)
    ensures
        match scan_from(src, i, line) {
            Ok(toks) => tokens_wf(toks) && literals_wf(toks) && (forall|k: int|
                0 <= k < toks.len() ==> (#[trigger] toks[k]).kind != TokenType::Unknown),
            Err(_) => true,
        },
    decreases src.len() - i,
{
    if 0 <= i && i < src.len() {
        lemma_scan_step_advances(src, i, line);
        match scan_step(src, i, line) {
            SpecStep::Emit { kind, lit, next, line: line2 } => {
                lemma_scan_from_wf(src, next, line2);
                let tok = SpecToken {
                    kind,
                    lexeme: src.subrange(i, next),
                    literal: lit,
                    line: line2,
                };
                if let Ok(rest) = scan_from(src, next, line2) {
                    let toks = seq![tok] + rest;
                    assert(toks.last() == rest.last());
                    assert(lit_consistent(tok)) by {
                        lemma_scan_step_literal(src, i, line);
                    }
                    assert forall|k: int| 0 <= k < toks.len() - 1 implies (
                    #[trigger] toks[k]).kind != TokenType::Eof by {
                        if k >= 1 {
                            assert(toks[k] == rest[k - 1]);
                        }
                    }
                    assert forall|k: int| 0 <= k < toks.len() implies lit_consistent(
                        #[trigger] toks[k],
                    ) by {
                        if k >= 1 {
                            assert(toks[k] == rest[k - 1]);
                        }
                    }
                    assert forall|k: int| 0 <= k < toks.len() implies (#[trigger] toks[k]).kind
                        != TokenType::Unknown by {
                        if k >= 1 {
                            assert(toks[k] == rest[k - 1]);
                        }
                    }
                }
            },
            SpecStep::Skip { next, line: line2 } => {
                lemma_scan_from_wf(src, next, line2);
            },
            SpecStep::Fail { .. } => {},
        }
    }
}

/// An emitted token's literal payload agrees with its category.
proof fn lemma_scan_step_literal(src: Seq<char>, i: int, line: nat)
    requires
        0 <= i < src.len(),
    ensures
        match scan_step(src, i, line) {
            SpecStep::Emit { kind, lit, next, line: line2 } => lit_consistent(
                SpecToken { kind, lexeme: src.subrange(i, next), literal: lit, line: line2 },
            ),
            _ => true,
        },
{
}

/// The scan never fails with `InvalidNumber`: a scanned number literal is
/// always a digit run with at most one fractional digit run, and its
/// canonical decimal form always exists.  The error kind remains in the
/// taxonomy for callers that construct diagnostics of their own.
pub proof fn lemma_scan_no_invalid_number(src: Seq<char>, i: int, line: nat)
    ensures
        match scan_from(src, i, line) {
            Ok(_) => true,
            Err(e) => e.kind != LoxErrorKind::InvalidNumber,
        },
    decreases src.len() - i,
{
    if 0 <= i && i < src.len() {
        lemma_scan_step_advances(src, i, line);
        match scan_step(src, i, line) {
            SpecStep::Emit { next, line: line2, .. } => {
                lemma_scan_no_invalid_number(src, next, line2);
            },
            SpecStep::Skip { next, line: line2 } => {
                lemma_scan_no_invalid_number(src, next, line2);
            },
            SpecStep::Fail { .. } => {},
        }
    }
}

/// In a run of identifier characters, the identifier extends to the end.
proof fn lemma_ident_end_all(src: Seq<char>, j: int)
    requires
        0 <= j <= src.len(),
        forall|k: int| j <= k < src.len() ==> is_alnum(#[trigger] src[k]),
    ensures
        ident_end(src, j) == src.len(),
    decreases src.len() - j,
{
    if j < src.len() {
        lemma_ident_end_all(src, j + 1);
    }
}

/// Scanning a standalone identifier-shaped text yields exactly one token —
/// its keyword category if the text is in the fixed keyword table, the
/// generic identifier category carrying the text otherwise — followed by
/// the end marker.
pub proof fn lemma_keyword_scan(src: Seq<char>)
    requires
        src.len() >= 1,
        is_alpha(src[0]),
        forall|k: int| 0 <= k < src.len() ==> is_alnum(#[trigger] src[k]),
    ensures
        scan_from(src, 0, 1) == Ok::<Seq<SpecToken>, SpecError>(
            seq![
                SpecToken { kind: kw_or_ident(src), lexeme: src, literal: None, line: 1 },
                eof_token(1),
            ],
        ),
{
    lemma_ident_end_all(src, 1);
    let tok = SpecToken { kind: kw_or_ident(src), lexeme: src, literal: None, line: 1 };
    assert(src.subrange(0, src.len() as int) =~= src);
    assert(scan_step(src, 0, 1) == SpecStep::Emit {
        kind: kw_or_ident(src),
        lit: None,
        next: src.len() as int,
        line: 1nat,
    });
    assert(scan_from(src, src.len() as int, 1) == Ok::<Seq<SpecToken>, SpecError>(
        seq![eof_token(1)],
    ));
    assert(seq![tok] + seq![eof_token(1)] =~= seq![tok, eof_token(1)]);
}

/// Prepends already-scanned tokens to the outcome of the rest of the scan.
pub open spec fn scan_join(pre: Seq<SpecToken>, rest: Result<Seq<SpecToken>, SpecError>) -> Result<
    Seq<SpecToken>,
    SpecError,
> {
    match rest {
        Ok(s) => Ok(pre + s),
        Err(e) => Err(e),
    }
}

// ---------------------------------------------------------------------------
// Executable character classes
// ---------------------------------------------------------------------------
fn digit_c(c: char) -> (b: bool)
    ensures
        b == is_digit(c),
{
    let u = c as u32;
    ('0' as u32) <= u && u <= ('9' as u32)
}

fn alpha_c(c: char) -> (b: bool)
    ensures
        b == is_alpha(c),
{
    let u = c as u32;
    (('a' as u32) <= u && u <= ('z' as u32)) || (('A' as u32) <= u && u <= ('Z' as u32)) || c == '_'
}

fn alnum_c(c: char) -> (b: bool)
    ensures
        b == is_alnum(c),
{
    alpha_c(c) || digit_c(c)
}

/// The characters of `v` from `a` (inclusive) to `b` (exclusive).
fn subchars(v: &Vec<char>, a: usize, b: usize) -> (out: Vec<char>)
    requires
        a <= b <= v@.len(),
    ensures
        out@ == v@.subrange(a as int, b as int),
{
    let mut out: Vec<char> = Vec::new();
    let mut i: usize = a;
    while i < b
        invariant
            a <= i <= b <= v@.len(),
            out@ == v@.subrange(a as int, i as int),
        decreases b - i,
    {
        out.push(v[i]);
        i += 1;
        proof {
            assert(v@.subrange(a as int, i as int) =~= v@.subrange(a as int, i - 1).push(
                v@[i - 1],
            ));
        }
    }
    out
}

/// The characters of `v` from `a` (inclusive) to `b` (exclusive), as a string.
fn substring(v: &Vec<char>, a: usize, b: usize) -> (s: String)
    requires
        a <= b <= v@.len(),
    ensures
        s@ == v@.subrange(a as int, b as int),
{
    let out = subchars(v, a, b);
    chars_string(&out)
}

// ---------------------------------------------------------------------------
// The scanner
// ---------------------------------------------------------------------------
/// The lexical scanner: a single left-to-right pass over the source text.
///
/// The cursor state (`start`, `current`, `line`) is owned by the scanner and
/// not observable outside it; the contracts speak of it through the spec
/// accessors `pos`, `line_no` and `start_pos`.
#[derive(Debug)]
pub struct Scanner {
    source: Vec<char>,
    start: usize,
    current: usize,
    line: usize,
}

impl Scanner {
    /// The source text being scanned.
    pub closed spec fn src(&self) -> Seq<char> {
        self.source@
    }

    /// The cursor: the position of the next character to consume.
    pub closed spec fn pos(&self) -> int {
        self.current as int
    }

    /// The position where the lexeme being scanned began.
    pub closed spec fn start_pos(&self) -> int {
        self.start as int
    }

    /// The running 1-based line counter.
    pub closed spec fn line_no(&self) -> nat {
        self.line as nat
    }

    /// The scanner's well-formedness: the cursor stays inside the source,
    /// and the line counter never exceeds the number of consumed characters
    /// plus one, which keeps it free of overflow.
    pub closed spec fn wf(&self) -> bool {
        &&& self.source@.len() < usize::MAX
        &&& self.current <= self.source@.len()
        &&& self.start <= self.current
        &&& 1 <= self.line
        &&& self.line <= self.current + 1
    }

    /// Builds a scanner over `source`, with the cursor at the beginning and
    /// the line counter at one.
    ///
    /// The length bound is a machine limit: a source of `usize::MAX`
    /// characters cannot exist in memory.
    pub fn new(source: String) -> (s: Scanner)
        requires
            source@.len() < usize::MAX,
        ensures
            s.wf(),
            s.src() == source@,
            s.pos() == 0,
            s.line_no() == 1,
    {
        Scanner { source: str_chars(source.as_str()), start: 0, current: 0, line: 1 }
    }

    /// True exactly when the whole source has been consumed.
    fn is_at_end(&self) -> (b: bool)
        requires
            self.wf(),
        ensures
            b == (self.pos() == self.src().len()),
    {
        self.current >= self.source.len()
    }

    /// Consumes and returns the next character.
    fn advance(&mut self) -> (c: char)
        requires
            old(self).wf(),
            old(self).pos() < old(self).src().len(),
        ensures
            final(self).wf(),
            final(self).src() == old(self).src(),
            final(self).start_pos() == old(self).start_pos(),
            final(self).pos() == old(self).pos() + 1,
            final(self).line_no() == old(self).line_no(),
            c == old(self).src()[old(self).pos()],
    {
        let result = self.source[self.current];
        self.current += 1;
        result
    }

    /// The current character, without consuming it; `'\0'` at the end.
    fn peek(&self) -> (c: char)
        requires
            self.wf(),
        ensures
            c == (if self.pos() < self.src().len() {
                self.src()[self.pos()]
            } else {
                '\0'
            }),
    {
        if self.is_at_end() {
            return '\0';
        }
        self.source[self.current]
    }

    /// The character after the current one, without consuming; `'\0'` past
    /// the end.
    fn peek_next(&self) -> (c: char)
        requires
            self.wf(),
        ensures
            c == (if self.pos() + 1 < self.src().len() {
                self.src()[self.pos() + 1]
            } else {
                '\0'
            }),
    {
        if self.current + 1 >= self.source.len() {
            return '\0';
        }
        self.source[self.current + 1]
    }

    /// One-character lookahead: consumes the current character exactly when
    /// it is `expected`.
    fn is_match(&mut self, expected: char) -> (r: Option<()>)
        requires
            old(self).wf(),
        ensures
            final(self).wf(),
            final(self).src() == old(self).src(),
            final(self).start_pos() == old(self).start_pos(),
            final(self).line_no() == old(self).line_no(),
            if old(self).pos() < old(self).src().len() && old(self).src()[old(self).pos()]
                == expected {
                r is Some && final(self).pos() == old(self).pos() + 1
            } else {
                r is None && final(self).pos() == old(self).pos()
            },
    {
        if self.is_at_end() {
            return None;
        }
        if self.source[self.current] != expected {
            return None;
        }
        self.current += 1;
        Some(())
    }

    /// Scans the rest of a string literal whose opening quote was just
    /// consumed: everything up to the next quote becomes the literal value,
    /// and reaching the end of the input first is a fatal
    /// `UnterminatedString` error carrying the line the string began on.
    fn string(&mut self) -> (r: Result<Object, LoxError>)
        requires
            old(self).wf(),
        ensures
            final(self).wf(),
            final(self).src() == old(self).src(),
            final(self).start_pos() == old(self).start_pos(),
            ({
                let src = old(self).src();
                let close = string_close(src, old(self).pos());
                if close >= src.len() {
                    r matches Err(e) && e@ == (SpecError {
                        kind: LoxErrorKind::UnterminatedString,
                        line: old(self).line_no(),
                        token: None,
                    })
                } else {
                    (r matches Ok(o) && o@ == SpecObject::Str(
                        src.subrange(old(self).pos(), close),
                    )) && final(self).pos() == close + 1 && final(self).line_no() == old(
                        self,
                    ).line_no() + newline_count(src.subrange(old(self).pos(), close))
                }
            }),
    {
        let line_start = self.line;
        let content_start = self.current;
        let ghost src = self.src();
        let ghost close = string_close(src, self.current as int);
        proof {
            lemma_string_close_bounds(src, self.current as int);
        }
        loop
            invariant
                self.wf(),
                self.src() == src,
                self.start_pos() == old(self).start_pos(),
                line_start == old(self).line_no(),
                content_start as int == old(self).pos(),
                close == string_close(src, old(self).pos()),
                content_start as int <= self.pos() <= close <= src.len(),
                string_close(src, self.pos()) == close,
                self.line_no() == old(self).line_no() + newline_count(
                    src.subrange(content_start as int, self.pos()),
                ),
            ensures
                self.wf(),
                self.src() == src,
                self.start_pos() == old(self).start_pos(),
                self.pos() == close,
                self.line_no() == old(self).line_no() + newline_count(
                    src.subrange(content_start as int, self.pos()),
                ),
            decreases src.len() - self.pos(),
        {
            if self.is_at_end() {
                break;
            }
            let c = self.peek();
            if c == '"' {
                break;
            }
            let _ = self.advance();
            if c == '\n' {
                self.line = self.line + 1;
            }
            proof {
                let p = self.pos();
                assert(string_close(src, p - 1) == string_close(src, p));
                lemma_string_close_bounds(src, p);
                assert(src.subrange(content_start as int, p) =~= src.subrange(
                    content_start as int,
                    p - 1,
                ).push(src[p - 1]));
                lemma_newline_count_push(src.subrange(content_start as int, p - 1), src[p - 1]);
            }
        }
        if self.is_at_end() {
            return Err(LoxError::error(None, LoxErrorKind::UnterminatedString, line_start));
        }
        let _ = self.advance();
        let val = substring(&self.source, content_start, self.current - 1);
        Ok(Object::Str(val))
    }

    /// Scans the rest of a number literal whose first digit was just
    /// consumed: the maximal digit run, then optionally one `.` followed by
    /// at least one more digit and the digit run after it.  The literal is
    /// the canonical decimal form of the consumed text.
    fn number(&mut self) -> (r: Result<Object, LoxError>)
        requires
            old(self).wf(),
            1 <= old(self).pos(),
        ensures
            final(self).wf(),
            final(self).src() == old(self).src(),
            final(self).start_pos() == old(self).start_pos(),
            final(self).line_no() == old(self).line_no(),
            ({
                let src = old(self).src();
                let i = old(self).pos() - 1;
                let j = digits_end(src, old(self).pos());
                if j < src.len() && src[j] == '.' && j + 1 < src.len() && is_digit(src[j + 1]) {
                    let k = digits_end(src, j + 1);
                    (r matches Ok(o) && o@ == SpecObject::Num(
                        canon_num(src.subrange(i, j), src.subrange(j + 1, k)),
                    )) && final(self).pos() == k
                } else {
                    (r matches Ok(o) && o@ == SpecObject::Num(
                        canon_num(src.subrange(i, j), Seq::<char>::empty()),
                    )) && final(self).pos() == j
                }
            }),
    {
        let int_start = self.current - 1;
        let ghost src = self.src();
        self.digit_run();
        let j = self.current;
        let c1 = self.peek();
        let c2 = self.peek_next();
        if c1 == '.' && digit_c(c2) {
            let _ = self.advance();
            self.digit_run();
            let k = self.current;
            let ip = subchars(&self.source, int_start, j);
            let fp = subchars(&self.source, j + 1, k);
            proof {
                lemma_digits_end_bounds(src, j + 1);
            }
            Ok(Object::Num(canonical_number(&ip, &fp)))
        } else {
            let ip = subchars(&self.source, int_start, j);
            let fp: Vec<char> = Vec::new();
            proof {
                assert(fp@ =~= Seq::<char>::empty());
            }
            Ok(Object::Num(canonical_number(&ip, &fp)))
        }
    }

    /// Consumes the maximal run of digits starting at the cursor.
    fn digit_run(&mut self)
        requires
            old(self).wf(),
        ensures
            final(self).wf(),
            final(self).src() == old(self).src(),
            final(self).start_pos() == old(self).start_pos(),
            final(self).line_no() == old(self).line_no(),
            final(self).pos() == digits_end(old(self).src(), old(self).pos()),
            old(self).pos() <= final(self).pos(),
    {
        let ghost src = self.src();
        loop
            invariant
                self.wf(),
                self.src() == src,
                self.start_pos() == old(self).start_pos(),
                self.line_no() == old(self).line_no(),
                old(self).pos() <= self.pos() <= src.len(),
                digits_end(src, self.pos()) == digits_end(src, old(self).pos()),
            ensures
                self.wf(),
                self.src() == src,
                self.start_pos() == old(self).start_pos(),
                self.line_no() == old(self).line_no(),
                old(self).pos() <= self.pos(),
                self.pos() == digits_end(src, old(self).pos()),
            decreases src.len() - self.pos(),
        {
            let c = self.peek();
            if !digit_c(c) {
                break;
            }
            let _ = self.advance();
        }
    }

    /// Scans the rest of an identifier whose first character was just
    /// consumed, and classifies the whole lexeme against the keyword table.
    fn identifier(&mut self) -> (r: Result<TokenType, LoxError>)
        requires
            old(self).wf(),
            1 <= old(self).pos(),
        ensures
            final(self).wf(),
            final(self).src() == old(self).src(),
            final(self).start_pos() == old(self).start_pos(),
            final(self).line_no() == old(self).line_no(),
            final(self).pos() == ident_end(old(self).src(), old(self).pos()),
            r matches Ok(t) && t == kw_or_ident(
                old(self).src().subrange(
                    old(self).pos() - 1,
                    ident_end(old(self).src(), old(self).pos()),
                ),
            ),
    {
        let first = self.current - 1;
        let ghost src = self.src();
        loop
            invariant
                self.wf(),
                self.src() == src,
                self.start_pos() == old(self).start_pos(),
                self.line_no() == old(self).line_no(),
                old(self).pos() <= self.pos() <= src.len(),
                ident_end(src, self.pos()) == ident_end(src, old(self).pos()),
            ensures
                self.wf(),
                self.src() == src,
                self.start_pos() == old(self).start_pos(),
                self.line_no() == old(self).line_no(),
                old(self).pos() <= self.pos(),
                self.pos() == ident_end(src, old(self).pos()),
            decreases src.len() - self.pos(),
        {
            let c = self.peek();
            if !alnum_c(c) {
                break;
            }
            let _ = self.advance();
        }
        let text = substring(&self.source, first, self.current);
        match self.keyword(text.as_str()) {
            Some(ttype) => Ok(ttype),
            None => Ok(TokenType::Identifier),
        }
    }

    /// Looks a lexeme up in the fixed keyword table.
    fn keyword(&self, check: &str) -> (r: Option<TokenType>)
        ensures
            r == keyword_kind(check@),
    {
        if str_eq(check, "and") {
            Some(TokenType::And)
        } else if str_eq(check, "class") {
            Some(TokenType::Class)
        } else if str_eq(check, "else") {
            Some(TokenType::Else)
        } else if str_eq(check, "false") {
            Some(TokenType::False)
        } else if str_eq(check, "for") {
            Some(TokenType::For)
        } else if str_eq(check, "fun") {
            Some(TokenType::Fun)
        } else if str_eq(check, "if") {
            Some(TokenType::If)
        } else if str_eq(check, "nil") {
            Some(TokenType::Nil)
        } else if str_eq(check, "or") {
            Some(TokenType::Or)
        } else if str_eq(check, "print") {
            Some(TokenType::Print)
        } else if str_eq(check, "return") {
            Some(TokenType::Return)
        } else if str_eq(check, "super") {
            Some(TokenType::Super)
        } else if str_eq(check, "this") {
            Some(TokenType::This)
        } else if str_eq(check, "true") {
            Some(TokenType::True)
        } else if str_eq(check, "var") {
            Some(TokenType::Var)
        } else if str_eq(check, "let") {
            Some(TokenType::Let)
        } else if str_eq(check, "while") {
            Some(TokenType::While)
        } else if str_eq(check, "import") {
            Some(TokenType::Import)
        } else {
            None
        }
    }

    /// Handles the character after a `/`: a second `/` begins a line
    /// comment, discarded up to (but not including) the next newline;
    /// otherwise the `/` is the division token.
    fn divider(&mut self, ch: char) -> (r: Result<TokenType, LoxError>)
        requires
            old(self).wf(),
        ensures
            final(self).wf(),
            final(self).src() == old(self).src(),
            final(self).start_pos() == old(self).start_pos(),
            final(self).line_no() == old(self).line_no(),
            if old(self).pos() < old(self).src().len() && old(self).src()[old(self).pos()] == ch {
                (r matches Ok(t) && t == TokenType::Unknown) && final(self).pos() == line_end(
                    old(self).src(),
                    old(self).pos() + 1,
                )
            } else {
                (r matches Ok(t) && t == TokenType::Slash) && final(self).pos() == old(self).pos()
            },
    {
        let ghost src = self.src();
        if self.is_match(ch).is_some() {
            let ghost comment_start = self.pos();
            loop
                invariant
                    self.wf(),
                    self.src() == src,
                    self.start_pos() == old(self).start_pos(),
                    self.line_no() == old(self).line_no(),
                    comment_start <= self.pos() <= src.len(),
                    line_end(src, self.pos()) == line_end(src, comment_start),
                ensures
                    self.wf(),
                    self.src() == src,
                    self.start_pos() == old(self).start_pos(),
                    self.line_no() == old(self).line_no(),
                    self.pos() == line_end(src, comment_start),
                decreases src.len() - self.pos(),
            {
                let c = self.peek();
                if c == '\n' {
                    break;
                }
                if self.is_at_end() {
                    break;
                }
                let _ = self.advance();
            }
            Ok(TokenType::Unknown)
        } else {
            Ok(TokenType::Slash)
        }
    }

    /// Classifies and consumes one lexeme: returns its token category and
    /// literal payload (`Unknown` for input that produces no token), or the
    /// first fatal error.  The outcome is exactly `scan_step` at the entry
    /// position.
    fn scan_token(&mut self) -> (r: Result<(TokenType, Option<Object>), LoxError>)
        requires
            old(self).wf(),
            old(self).pos() < old(self).src().len(),
        ensures
            final(self).wf(),
            final(self).src() == old(self).src(),
            final(self).start_pos() == old(self).start_pos(),
            (match scan_step(old(self).src(), old(self).pos(), old(self).line_no()) {
                SpecStep::Emit { kind, lit, next, line: l2 } => (r matches Ok(p) && p.0 == kind
                    && opt_obj_view(p.1) == lit) && final(self).pos() == next
                    && final(self).line_no() == l2,
                SpecStep::Skip { next, line: l2 } => (r matches Ok(p) && p.0 == TokenType::Unknown
                    && p.1 is None) && final(self).pos() == next && final(self).line_no() == l2,
                SpecStep::Fail { err, line: l2 } => r matches Err(e) && e@ == (SpecError {
                    kind: err,
                    line: l2,
                    token: None,
                }),
            }),
    {
        let c = self.advance();
        if c == ' ' || c == '\t' || c == '\r' {
            Ok((TokenType::Unknown, None))
        } else if c == '\n' {
            self.line = self.line + 1;
            Ok((TokenType::Unknown, None))
        } else if c == '.' {
            Ok((TokenType::Dot, None))
        } else if c == '(' {
            Ok((TokenType::LeftParen, None))
        } else if c == ')' {
            Ok((TokenType::RightParen, None))
        } else if c == '{' {
            Ok((TokenType::LeftBrace, None))
        } else if c == '}' {
            Ok((TokenType::RightBrace, None))
        } else if c == '[' {
            Ok((TokenType::LeftBracket, None))
        } else if c == ']' {
            Ok((TokenType::RightBracket, None))
        } else if c == ',' {
            Ok((TokenType::Comma, None))
        } else if c == '-' {
            Ok((TokenType::Minus, None))
        } else if c == '+' {
            Ok((TokenType::Plus, None))
        } else if c == ';' {
            Ok((TokenType::Semicolon, None))
        } else if c == '*' {
            Ok((TokenType::Star, None))
        } else if c == '!' {
            match self.is_match('=') {
                Some(_) => Ok((TokenType::BangEqual, None)),
                None => Ok((TokenType::Bang, None)),
            }
        } else if c == '=' {
            match self.is_match('=') {
                Some(_) => Ok((TokenType::EqualEqual, None)),
                None => Ok((TokenType::Equal, None)),
            }
        } else if c == '<' {
            match self.is_match('=') {
                Some(_) => Ok((TokenType::LessEqual, None)),
                None => Ok((TokenType::Less, None)),
            }
        } else if c == '>' {
            match self.is_match('=') {
                Some(_) => Ok((TokenType::GreaterEqual, None)),
                None => Ok((TokenType::Greater, None)),
            }
        } else if c == '"' {
            match self.string() {
                Ok(o) => Ok((TokenType::Str, Some(o))),
                Err(e) => Err(e),
            }
        } else if digit_c(c) {
            match self.number() {
                Ok(o) => Ok((TokenType::Number, Some(o))),
                Err(e) => Err(e),
            }
        } else if c == '/' {
            match self.divider('/') {
                Ok(t) => Ok((t, None)),
                Err(e) => Err(e),
            }
        } else if alpha_c(c) {
            match self.identifier() {
                Ok(t) => Ok((t, None)),
                Err(e) => Err(e),
            }
        } else {
            Err(LoxError::error(None, LoxErrorKind::UnexpectedCharacter(c), self.line))
        }
    }

    /// Appends to `tokens` a token of the given category and literal whose
    /// lexeme is the source text between `start` and the cursor, at the
    /// current line.
    fn add_token(&self, tokens: &mut Vec<Token>, ttype: TokenType, literal: Option<Object>)
        requires
            self.wf(),
        ensures
            final(tokens)@.map_values(|t: Token| t@) == old(tokens)@.map_values(|t: Token| t@).push(
                SpecToken {
                    kind: ttype,
                    lexeme: self.src().subrange(self.start_pos(), self.pos()),
                    literal: opt_obj_view(literal),
                    line: self.line_no(),
                },
            ),
    {
        let ghost target = SpecToken {
            kind: ttype,
            lexeme: self.src().subrange(self.start_pos(), self.pos()),
            literal: opt_obj_view(literal),
            line: self.line_no(),
        };
        let lexeme = substring(&self.source, self.start, self.current);
        tokens.push(Token::new(ttype, lexeme, literal, self.line));
        proof {
            assert(tokens@.map_values(|t: Token| t@) =~= old(tokens)@.map_values(
                |t: Token| t@,
            ).push(target));
        }
    }

    /// Scans the whole remaining source: on success the token sequence with
    /// exactly one end marker appended, otherwise the first fatal error.
    /// The outcome is exactly `scan_from` at the entry position.
    pub fn scan_tokens(&mut self) -> (r: Result<Vec<Token>, LoxError>)
        requires
            old(self).wf(),
        ensures
            final(self).wf(),
            final(self).src() == old(self).src(),
            (match scan_from(old(self).src(), old(self).pos(), old(self).line_no()) {
                Ok(toks) => r matches Ok(v) && v@.map_values(|t: Token| t@) == toks,
                Err(e) => r matches Err(er) && er@ == e,
            }),
    {
        let ghost src = self.src();
        let ghost p0 = self.pos();
        let ghost l0 = self.line_no();
        let mut tokens: Vec<Token> = Vec::new();
        proof {
            assert(tokens@.map_values(|t: Token| t@) =~= Seq::<SpecToken>::empty());
            match scan_from(src, p0, l0) {
                Ok(s) => {
                    assert(Seq::<SpecToken>::empty() + s =~= s);
                },
                Err(_) => {},
            }
        }
        loop
            invariant
                self.wf(),
                self.src() == src,
                src == old(self).src(),
                p0 == old(self).pos(),
                l0 == old(self).line_no(),
                scan_join(tokens@.map_values(|t: Token| t@), scan_from(src, self.pos(), self.line_no()))
                    == scan_from(src, p0, l0),
            ensures
                self.wf(),
                self.src() == src,
                self.pos() == src.len(),
                scan_join(tokens@.map_values(|t: Token| t@), scan_from(src, self.pos(), self.line_no()))
                    == scan_from(src, p0, l0),
            decreases src.len() - self.pos(),
        {
            if self.is_at_end() {
                break;
            }
            self.start = self.current;
            let ghost pi = self.pos();
            let ghost li = self.line_no();
            let ghost pre = tokens@.map_values(|t: Token| t@);
            proof {
                lemma_scan_step_advances(src, pi, li);
            }
            match self.scan_token() {
                Ok((ttype, literal)) => {
                    if ttype == TokenType::Unknown {
                    } else {
                        self.add_token(&mut tokens, ttype, literal);
                        proof {
                            match scan_step(src, pi, li) {
                                SpecStep::Emit { kind, lit, next, line: l2 } => {
                                    let tok = SpecToken {
                                        kind,
                                        lexeme: src.subrange(pi, next),
                                        literal: lit,
                                        line: l2,
                                    };
                                    match scan_from(src, next, l2) {
                                        Ok(rest) => {
                                            assert(pre.push(tok) + rest =~= pre + (seq![tok]
                                                + rest));
                                        },
                                        Err(_) => {},
                                    }
                                },
                                _ => {},
                            }
                        }
                    }
                },
                Err(e) => {
                    return Err(e);
                },
            }
        }
        let ghost pre = tokens@.map_values(|t: Token| t@);
        let ghost lf = self.line_no();
        tokens.push(Token::eof(self.line));
        proof {
            assert(tokens@.map_values(|t: Token| t@) =~= pre.push(eof_token(lf)));
            assert(pre + seq![eof_token(lf)] =~= pre.push(eof_token(lf)));
        }
        Ok(tokens)
    }
}

/// Builds the canonical decimal text from an integer digit part and a
/// (possibly empty) fractional digit part.
fn canonical_number(ip: &Vec<char>, fp: &Vec<char>) -> (s: String)
    requires
        ip@.len() < usize::MAX,
    ensures
        s@ == canon_num(ip@, fp@),
{
    proof {
        assert(ip@.skip(0) =~= ip@);
        assert(fp@.take(fp@.len() as int) =~= fp@);
    }
    let mut li: usize = 0;
    while li + 1 < ip.len() && ip[li] == '0'
        invariant
            ip@.len() < usize::MAX,
            li <= ip@.len(),
            strip_leading_zeros(ip@) == strip_leading_zeros(ip@.skip(li as int)),
        decreases ip@.len() - li,
    {
        proof {
            assert(ip@.skip(li as int).len() > 1);
            assert(ip@.skip(li as int)[0] == '0');
            assert(ip@.skip(li as int).skip(1) =~= ip@.skip(li as int + 1));
        }
        li += 1;
    }
    let mut ti: usize = fp.len();
    while ti > 0 && fp[ti - 1] == '0'
        invariant
            ti <= fp@.len(),
            strip_trailing_zeros(fp@) == strip_trailing_zeros(fp@.take(ti as int)),
        decreases ti,
    {
        proof {
            assert(fp@.take(ti as int).len() > 0);
            assert(fp@.take(ti as int).last() == '0');
            assert(fp@.take(ti as int).drop_last() =~= fp@.take(ti as int - 1));
        }
        ti -= 1;
    }
    proof {
        assert(fp@.take(fp@.len() as int) =~= fp@);
        assert(strip_leading_zeros(ip@.skip(li as int)) == ip@.skip(li as int));
        assert(strip_trailing_zeros(fp@.take(ti as int)) == fp@.take(ti as int));
    }
    let mut out = subchars(ip, li, ip.len());
    if ti > 0 {
        out.push('.');
        let mut frac = subchars(fp, 0, ti);
        out.append(&mut frac);
        proof {
            assert(out@ =~= canon_num(ip@, fp@));
        }
    } else {
        proof {
            assert(out@ =~= canon_num(ip@, fp@));
        }
    }
    chars_string(&out)
}

} // verus!
