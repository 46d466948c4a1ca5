use vstd::prelude::*;
use vstd::string::*;

use crate::text::dec_string;
use crate::text::dec_text;
use crate::token_type::TokenType;
use crate::tokens::SpecToken;
use crate::tokens::Token;

verus! {

/// What went wrong: the three scanner failures and the two parser failures.
///
/// `UnexpectedCharacter` carries the offending character; `ExpectedToken`
/// carries the category that was required.  The offending token, where there
/// is one, and the source line live on the error value itself.
#[derive(Clone, Copy, Debug, PartialEq, Eq, Structural)]
pub enum LoxErrorKind {
    UnterminatedString,
    InvalidNumber,
    UnexpectedCharacter(char),
    ExpectedToken(TokenType),
    ExpectedExpression,
}

/// The mathematical model of an error: its kind, its 1-based source line,
/// and the offending token, if the error points at one.
pub struct SpecError {
    pub kind: LoxErrorKind,
    pub line: nat,
    pub token: Option<SpecToken>,
}

/// A structured scan or parse error.
///
/// The error is a plain value: rendering it (and deciding where to print it)
/// is left entirely to the caller, so scanning and parsing stay free of any
/// output of their own.
#[derive(Debug)]
pub struct LoxError {
    /// The offending token, for parser errors; `None` for scanner errors.
    pub token: Option<Token>,
    /// The 1-based source line the error points at.
    pub line: usize,
    /// What went wrong.
    pub kind: LoxErrorKind,
}

impl View for LoxError {
    type V = SpecError;

    open spec fn view(&self) -> SpecError {
        SpecError {
            kind: self.kind,
            line: self.line as nat,
            token: match self.token {
                Some(t) => Some(t@),
                None => None,
            },
        }
    }
}

/// The message text for an error kind.
pub open spec fn kind_message_text(kind: LoxErrorKind) -> Seq<char> {
    match kind {
        LoxErrorKind::UnterminatedString => "Unterminated string"@,
        LoxErrorKind::InvalidNumber => "Unable to parse number"@,
        LoxErrorKind::UnexpectedCharacter(_) => "Unexpected character"@,
        LoxErrorKind::ExpectedToken(tt) => "Expect "@ + tt.describe_text() + " after expression."@,
        LoxErrorKind::ExpectedExpression => "Expect an expression"@,
    }
}

/// The full human-readable diagnostic for an error: `[line L] error: <msg>`
/// for scanner errors, `[line L] error at '<lexeme>': <msg>` for parser
/// errors, and `[line L] error at end: <msg>` when the offending token is
/// the end marker.
pub open spec fn error_text(e: SpecError) -> Seq<char> {
    match e.token {
        Some(t) => if t.kind == TokenType::Eof {
            "[line "@ + dec_text(e.line) + "] error at end: "@ + kind_message_text(e.kind)
        } else {
            "[line "@ + dec_text(e.line) + "] error at '"@ + t.lexeme + "': "@ + kind_message_text(
                e.kind,
            )
        },
        None => "[line "@ + dec_text(e.line) + "] error: "@ + kind_message_text(e.kind),
    }
}

impl LoxError {
    /// Builds an error.  When an offending token is given, the error's line
    /// is taken from that token; otherwise the given line is used.
    pub fn error(token: Option<Token>, kind: LoxErrorKind, line: usize) -> (e: LoxError)
        ensures
            e@ == (SpecError {
                kind,
                line: (match token {
                    Some(t) => t.line,
                    None => line,
                }) as nat,
                token: match token {
                    Some(t) => Some(t@),
                    None => None,
                },
            }),
    {
        match token {
            Some(t) => {
                let l = t.line;
                LoxError { token: Some(t), line: l, kind }
            },
            None => LoxError { token: None, line, kind },
        }
    }

    /// The message text for this error's kind.
    pub fn message(&self) -> (s: String)
        ensures
            s@ == kind_message_text(self.kind),
    {
        match self.kind {
            LoxErrorKind::UnterminatedString => String::from_str("Unterminated string"),
            LoxErrorKind::InvalidNumber => String::from_str("Unable to parse number"),
            LoxErrorKind::UnexpectedCharacter(_) => String::from_str("Unexpected character"),
            LoxErrorKind::ExpectedToken(tt) => String::from_str("Expect ").concat(
                tt.describe().as_str(),
            ).concat(" after expression."),
            LoxErrorKind::ExpectedExpression => String::from_str("Expect an expression"),
        }
    }

    /// Renders the full human-readable diagnostic for this error.
    pub fn describe(&self) -> (s: String)
        ensures
            s@ == error_text(self@),
    {
        let head = String::from_str("[line ").concat(dec_string(self.line).as_str());
        match &self.token {
            Some(t) => {
                if t.is(&TokenType::Eof) {
                    head.concat("] error at end: ").concat(self.message().as_str())
                } else {
                    head.concat("] error at '").concat(t.lexeme.as_str()).concat("': ").concat(
                        self.message().as_str(),
                    )
                }
            },
            None => head.concat("] error: ").concat(self.message().as_str()),
        }
    }
}

} // verus!
