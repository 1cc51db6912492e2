use vstd::prelude::*;
use crate::span::Span;

verus! {

/// The closed catalogue of token categories produced by the lexer.
#[derive(Clone, Copy, Debug, PartialEq, Eq, Structural)]
pub enum TokenKind {
    // keywords
    Namespace,
    Fn,
    Return,
    Enum,
    Union,
    Struct,
    SelfKeyword,
    While,
    Mut,
    If,
    Else,
    Import,
    Comptime,
    Try,
    Null,
    // primitive type names
    I8,
    I16,
    I32,
    I64,
    U8,
    U16,
    U32,
    U64,
    F32,
    F64,
    Char,
    Bool,
    Void,
    // literals
    Identifier,
    StringLiteral,
    CharLiteral,
    IntegerLiteral,
    FloatLiteral,
    HexadecimalLiteral,
    BinaryLiteral,
    OctalLiteral,
    // comparison and assignment
    Equal,
    EqualEqual,
    BangEqual,
    Greater,
    GreaterEqual,
    Less,
    LessEqual,
    // punctuation
    OpenParenthesis,
    CloseParenthesis,
    OpenBrace,
    CloseBrace,
    OpenBracket,
    CloseBracket,
    Comma,
    Dot,
    DoubleDot,
    Elipsis,
    Colon,
    DoubleColon,
    Semicolon,
    Arrow,
    QuestionMark,
    Bang,
    Ampersand,
    Dollar,
    // arithmetic
    Plus,
    Minus,
    Asterisk,
    Slash,
    Percent,
    // compound assignment
    ColonEquals,
    PlusEquals,
    MinusEquals,
    AsteriskEquals,
    SlashEquals,
    PercentEquals,
    // structure
    Newline,
    EndOfFile,
}

/// A classified fragment of source text.
#[derive(Clone, Debug)]
pub struct Token {
    pub kind: TokenKind,
    /// The decoded text of identifiers, keywords and literals; absent for punctuation.
    pub literal: Option<String>,
    pub span: Span,
}

impl Token {
    /// A copy of this token.
    pub fn duplicate(&self) -> (r: Token)
        ensures
            r == *self,
    {
        let literal = match &self.literal {
            Some(s) => Some(s.clone()),
            None => None,
        };
        Token { kind: self.kind, literal, span: self.span.duplicate() }
    }
}

/// The name of a token kind, as diagnostics print it.
pub open spec fn kind_name(k: TokenKind) -> Seq<char> {
    match k {
        TokenKind::Namespace => "Namespace"@,
        TokenKind::Fn => "Fn"@,
        TokenKind::Return => "Return"@,
        TokenKind::Enum => "Enum"@,
        TokenKind::Union => "Union"@,
        TokenKind::Struct => "Struct"@,
        TokenKind::SelfKeyword => "SelfKeyword"@,
        TokenKind::While => "While"@,
        TokenKind::Mut => "Mut"@,
        TokenKind::If => "If"@,
        TokenKind::Else => "Else"@,
        TokenKind::Import => "Import"@,
        TokenKind::Comptime => "Comptime"@,
        TokenKind::Try => "Try"@,
        TokenKind::Null => "Null"@,
        TokenKind::I8 => "I8"@,
        TokenKind::I16 => "I16"@,
        TokenKind::I32 => "I32"@,
        TokenKind::I64 => "I64"@,
        TokenKind::U8 => "U8"@,
        TokenKind::U16 => "U16"@,
        TokenKind::U32 => "U32"@,
        TokenKind::U64 => "U64"@,
        TokenKind::F32 => "F32"@,
        TokenKind::F64 => "F64"@,
        TokenKind::Char => "Char"@,
        TokenKind::Bool => "Bool"@,
        TokenKind::Void => "Void"@,
        TokenKind::Identifier => "Identifier"@,
        TokenKind::StringLiteral => "StringLiteral"@,
        TokenKind::CharLiteral => "CharLiteral"@,
        TokenKind::IntegerLiteral => "IntegerLiteral"@,
        TokenKind::FloatLiteral => "FloatLiteral"@,
        TokenKind::HexadecimalLiteral => "HexadecimalLiteral"@,
        TokenKind::BinaryLiteral => "BinaryLiteral"@,
        TokenKind::OctalLiteral => "OctalLiteral"@,
        TokenKind::Equal => "Equal"@,
        TokenKind::EqualEqual => "EqualEqual"@,
        TokenKind::BangEqual => "BangEqual"@,
        TokenKind::Greater => "Greater"@,
        TokenKind::GreaterEqual => "GreaterEqual"@,
        TokenKind::Less => "Less"@,
        TokenKind::LessEqual => "LessEqual"@,
        TokenKind::OpenParenthesis => "OpenParenthesis"@,
        TokenKind::CloseParenthesis => "CloseParenthesis"@,
        TokenKind::OpenBrace => "OpenBrace"@,
        TokenKind::CloseBrace => "CloseBrace"@,
        TokenKind::OpenBracket => "OpenBracket"@,
        TokenKind::CloseBracket => "CloseBracket"@,
        TokenKind::Comma => "Comma"@,
        TokenKind::Dot => "Dot"@,
        TokenKind::DoubleDot => "DoubleDot"@,
        TokenKind::Elipsis => "Elipsis"@,
        TokenKind::Colon => "Colon"@,
        TokenKind::DoubleColon => "DoubleColon"@,
        TokenKind::Semicolon => "Semicolon"@,
        TokenKind::Arrow => "Arrow"@,
        TokenKind::QuestionMark => "QuestionMark"@,
        TokenKind::Bang => "Bang"@,
        TokenKind::Ampersand => "Ampersand"@,
        TokenKind::Dollar => "Dollar"@,
        TokenKind::Plus => "Plus"@,
        TokenKind::Minus => "Minus"@,
        TokenKind::Asterisk => "Asterisk"@,
        TokenKind::Slash => "Slash"@,
        TokenKind::Percent => "Percent"@,
        TokenKind::ColonEquals => "ColonEquals"@,
        TokenKind::PlusEquals => "PlusEquals"@,
        TokenKind::MinusEquals => "MinusEquals"@,
        TokenKind::AsteriskEquals => "AsteriskEquals"@,
        TokenKind::SlashEquals => "SlashEquals"@,
        TokenKind::PercentEquals => "PercentEquals"@,
        TokenKind::Newline => "Newline"@,
        TokenKind::EndOfFile => "EndOfFile"@,
    }
}

impl TokenKind {
    /// The name of this kind, as diagnostics print it (see `kind_name`).
    pub fn describe(&self) -> (r: &'static str)
        ensures
            r@ == kind_name(*self),
    {
        match self {
            TokenKind::Namespace => "Namespace",
            TokenKind::Fn => "Fn",
            TokenKind::Return => "Return",
            TokenKind::Enum => "Enum",
            TokenKind::Union => "Union",
            TokenKind::Struct => "Struct",
            TokenKind::SelfKeyword => "SelfKeyword",
            TokenKind::While => "While",
            TokenKind::Mut => "Mut",
            TokenKind::If => "If",
            TokenKind::Else => "Else",
            TokenKind::Import => "Import",
            TokenKind::Comptime => "Comptime",
            TokenKind::Try => "Try",
            TokenKind::Null => "Null",
            TokenKind::I8 => "I8",
            TokenKind::I16 => "I16",
            TokenKind::I32 => "I32",
            TokenKind::I64 => "I64",
            TokenKind::U8 => "U8",
            TokenKind::U16 => "U16",
            TokenKind::U32 => "U32",
            TokenKind::U64 => "U64",
            TokenKind::F32 => "F32",
            TokenKind::F64 => "F64",
            TokenKind::Char => "Char",
            TokenKind::Bool => "Bool",
            TokenKind::Void => "Void",
            TokenKind::Identifier => "Identifier",
            TokenKind::StringLiteral => "StringLiteral",
            TokenKind::CharLiteral => "CharLiteral",
            TokenKind::IntegerLiteral => "IntegerLiteral",
            TokenKind::FloatLiteral => "FloatLiteral",
            TokenKind::HexadecimalLiteral => "HexadecimalLiteral",
            TokenKind::BinaryLiteral => "BinaryLiteral",
            TokenKind::OctalLiteral => "OctalLiteral",
            TokenKind::Equal => "Equal",
            TokenKind::EqualEqual => "EqualEqual",
            TokenKind::BangEqual => "BangEqual",
            TokenKind::Greater => "Greater",
            TokenKind::GreaterEqual => "GreaterEqual",
            TokenKind::Less => "Less",
            TokenKind::LessEqual => "LessEqual",
            TokenKind::OpenParenthesis => "OpenParenthesis",
            TokenKind::CloseParenthesis => "CloseParenthesis",
            TokenKind::OpenBrace => "OpenBrace",
            TokenKind::CloseBrace => "CloseBrace",
            TokenKind::OpenBracket => "OpenBracket",
            TokenKind::CloseBracket => "CloseBracket",
            TokenKind::Comma => "Comma",
            TokenKind::Dot => "Dot",
            TokenKind::DoubleDot => "DoubleDot",
            TokenKind::Elipsis => "Elipsis",
            TokenKind::Colon => "Colon",
            TokenKind::DoubleColon => "DoubleColon",
            TokenKind::Semicolon => "Semicolon",
            TokenKind::Arrow => "Arrow",
            TokenKind::QuestionMark => "QuestionMark",
            TokenKind::Bang => "Bang",
            TokenKind::Ampersand => "Ampersand",
            TokenKind::Dollar => "Dollar",
            TokenKind::Plus => "Plus",
            TokenKind::Minus => "Minus",
            TokenKind::Asterisk => "Asterisk",
            TokenKind::Slash => "Slash",
            TokenKind::Percent => "Percent",
            TokenKind::ColonEquals => "ColonEquals",
            TokenKind::PlusEquals => "PlusEquals",
            TokenKind::MinusEquals => "MinusEquals",
            TokenKind::AsteriskEquals => "AsteriskEquals",
            TokenKind::SlashEquals => "SlashEquals",
            TokenKind::PercentEquals => "PercentEquals",
            TokenKind::Newline => "Newline",
            TokenKind::EndOfFile => "EndOfFile",
        }
    }
}

} // verus!
