use vstd::prelude::*;

verus! {

/// The fixed enumeration of token categories produced by the scanner.
///
/// `Eof` is the end marker appended once at the end of every scanned token
/// sequence; `Unknown` is an internal marker the scanner uses for input that
/// produces no token (whitespace, newlines, comments) and never appears in a
/// scanned sequence.
#[derive(Clone, Copy, Debug, PartialEq, Eq, Structural)]
pub enum TokenType {
    // Single-character tokens.
    LeftParen,
    RightParen,
    LeftBrace,
    RightBrace,
    LeftBracket,
    RightBracket,
    Comma,
    Dot,
    Minus,
    Plus,
    Semicolon,
    Slash,
    Star,
    // One or two character tokens.
    Bang,
    BangEqual,
    Equal,
    EqualEqual,
    Greater,
    GreaterEqual,
    Less,
    LessEqual,
    // Literals.
    Identifier,
    Str,
    Number,
    // Keywords.
    And,
    Class,
    Else,
    False,
    Fun,
    For,
    If,
    Nil,
    Or,
    Print,
    Return,
    Super,
    This,
    True,
    Var,
    Let,
    While,
    Import,
    // Other.
    Eof,
    Unknown,
}

impl TokenType {
    /// The short text used for this token category in diagnostics.
    pub open spec fn describe_text(self) -> Seq<char> {
        match self {
            TokenType::LeftParen => "'('"@,
            TokenType::RightParen => "')'"@,
            TokenType::LeftBrace => "'{'"@,
            TokenType::RightBrace => "'}'"@,
            TokenType::LeftBracket => "'['"@,
            TokenType::RightBracket => "']'"@,
            TokenType::Comma => "','"@,
            TokenType::Dot => "'.'"@,
            TokenType::Minus => "'-'"@,
            TokenType::Plus => "'+'"@,
            TokenType::Semicolon => "';'"@,
            TokenType::Slash => "'/'"@,
            TokenType::Star => "'*'"@,
            TokenType::Bang => "'!'"@,
            TokenType::BangEqual => "'!='"@,
            TokenType::Equal => "'='"@,
            TokenType::EqualEqual => "'=='"@,
            TokenType::Greater => "'>'"@,
            TokenType::GreaterEqual => "'>='"@,
            TokenType::Less => "'<'"@,
            TokenType::LessEqual => "'<='"@,
            TokenType::Identifier => "identifier"@,
            TokenType::Str => "string"@,
            TokenType::Number => "number"@,
            TokenType::And => "'and'"@,
            TokenType::Class => "'class'"@,
            TokenType::Else => "'else'"@,
            TokenType::False => "'false'"@,
            TokenType::Fun => "'fun'"@,
            TokenType::For => "'for'"@,
            TokenType::If => "'if'"@,
            TokenType::Nil => "nil"@,
            TokenType::Or => "'or'"@,
            TokenType::Print => "'print'"@,
            TokenType::Return => "'return'"@,
            TokenType::Super => "'super'"@,
            TokenType::This => "'this'"@,
            TokenType::True => "'true'"@,
            TokenType::Var => "'var'"@,
            TokenType::Let => "'let'"@,
            TokenType::While => "'while'"@,
            TokenType::Import => "'import'"@,
            TokenType::Eof => "end"@,
            TokenType::Unknown => "unknown"@,
        }
    }

    /// The short text used for this token category in diagnostics.
    pub fn describe(&self) -> (s: String)
        ensures
            s@ == self.describe_text(),
    {
        match self {
            TokenType::LeftParen => String::from_str("'('"),
            TokenType::RightParen => String::from_str("')'"),
            TokenType::LeftBrace => String::from_str("'{'"),
            TokenType::RightBrace => String::from_str("'}'"),
            TokenType::LeftBracket => String::from_str("'['"),
            TokenType::RightBracket => String::from_str("']'"),
            TokenType::Comma => String::from_str("','"),
            TokenType::Dot => String::from_str("'.'"),
            TokenType::Minus => String::from_str("'-'"),
            TokenType::Plus => String::from_str("'+'"),
            TokenType::Semicolon => String::from_str("';'"),
            TokenType::Slash => String::from_str("'/'"),
            TokenType::Star => String::from_str("'*'"),
            TokenType::Bang => String::from_str("'!'"),
            TokenType::BangEqual => String::from_str("'!='"),
            TokenType::Equal => String::from_str("'='"),
            TokenType::EqualEqual => String::from_str("'=='"),
            TokenType::Greater => String::from_str("'>'"),
            TokenType::GreaterEqual => String::from_str("'>='"),
            TokenType::Less => String::from_str("'<'"),
            TokenType::LessEqual => String::from_str("'<='"),
            TokenType::Identifier => String::from_str("identifier"),
            TokenType::Str => String::from_str("string"),
            TokenType::Number => String::from_str("number"),
            TokenType::And => String::from_str("'and'"),
            TokenType::Class => String::from_str("'class'"),
            TokenType::Else => String::from_str("'else'"),
            TokenType::False => String::from_str("'false'"),
            TokenType::Fun => String::from_str("'fun'"),
            TokenType::For => String::from_str("'for'"),
            TokenType::If => String::from_str("'if'"),
            TokenType::Nil => String::from_str("nil"),
            TokenType::Or => String::from_str("'or'"),
            TokenType::Print => String::from_str("'print'"),
            TokenType::Return => String::from_str("'return'"),
            TokenType::Super => String::from_str("'super'"),
            TokenType::This => String::from_str("'this'"),
            TokenType::True => String::from_str("'true'"),
            TokenType::Var => String::from_str("'var'"),
            TokenType::Let => String::from_str("'let'"),
            TokenType::While => String::from_str("'while'"),
            TokenType::Import => String::from_str("'import'"),
            TokenType::Eof => String::from_str("end"),
            TokenType::Unknown => String::from_str("unknown"),
        }
    }
}

} // verus!
