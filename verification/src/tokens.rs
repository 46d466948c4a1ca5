use vstd::prelude::*;
use vstd::string::*;

use crate::object::Object;
use crate::object::SpecObject;
use crate::token_type::TokenType;

verus! {

/// The mathematical model of a token: its category, the exact source text it
/// was derived from, its optional literal payload, and its 1-based source
/// line.
pub struct SpecToken {
    pub kind: TokenType,
    pub lexeme: Seq<char>,
    pub literal: Option<SpecObject>,
    pub line: nat,
}

/// A well-formed token sequence, as the scanner produces it: at least the
/// end marker, the end marker exactly once, and at the end.
pub open spec fn tokens_wf(t: Seq<SpecToken>) -> bool {
    &&& t.len() >= 1
    &&& t.last().kind == TokenType::Eof
    &&& forall|i: int| 0 <= i < t.len() - 1 ==> (#[trigger] t[i]).kind != TokenType::Eof
}

/// A token's literal payload agrees with its category: number tokens carry
/// a number, string tokens carry a string, and no other token carries a
/// literal.
pub open spec fn lit_consistent(tok: SpecToken) -> bool {
    if tok.kind == TokenType::Number {
        tok.literal matches Some(SpecObject::Num(_))
    } else if tok.kind == TokenType::Str {
        tok.literal matches Some(SpecObject::Str(_))
    } else {
        tok.literal is None
    }
}

/// Every token's literal payload agrees with its category.
pub open spec fn literals_wf(t: Seq<SpecToken>) -> bool {
    forall|i: int| 0 <= i < t.len() ==> lit_consistent(#[trigger] t[i])
}

/// A classified, located fragment of source text produced by the scanner.
///
/// A token is created once by the scanner and never mutated afterwards: the
/// parser only reads (and clones) tokens.
#[derive(Debug)]
pub struct Token {
    pub ttype: TokenType,
    pub lexeme: String,
    pub literal: Option<Object>,
    pub line: usize,
}

impl View for Token {
    type V = SpecToken;

    open spec fn view(&self) -> SpecToken {
        SpecToken {
            kind: self.ttype,
            lexeme: self.lexeme@,
            literal: match self.literal {
                Some(o) => Some(o@),
                None => None,
            },
            line: self.line as nat,
        }
    }
}

impl Token {
    /// Builds a token from its four parts.
    pub fn new(ttype: TokenType, lexeme: String, literal: Option<Object>, line: usize) -> (t:
        Token)
        ensures
            t@ == (SpecToken {
                kind: ttype,
                lexeme: lexeme@,
                literal: match literal {
                    Some(o) => Some(o@),
                    None => None,
                },
                line: line as nat,
            }),
    {
        Token { ttype, lexeme, literal, line }
    }

    /// The end marker: an `Eof` token with an empty lexeme and no literal.
    pub fn eof(line: usize) -> (t: Token)
        ensures
            t@ == (SpecToken {
                kind: TokenType::Eof,
                lexeme: Seq::<char>::empty(),
                literal: None,
                line: line as nat,
            }),
    {
        Token { ttype: TokenType::Eof, lexeme: String::new(), literal: None, line }
    }

    /// True exactly when this token has the given category.
    pub fn is(&self, ttype: &TokenType) -> (r: bool)
        ensures
            r == (self.ttype == *ttype),
    {
        self.ttype == *ttype
    }
}

impl Clone for Token {
    /// A clone carries the same model as the original.
    fn clone(&self) -> (t: Token)
        ensures
            t@ == self@,
    {
        Token {
            ttype: self.ttype,
            lexeme: self.lexeme.clone(),
            literal: match &self.literal {
                Some(o) => Some(o.clone()),
                None => None,
            },
            line: self.line,
        }
    }
}

} // verus!
