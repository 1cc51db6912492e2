use vstd::prelude::*;
use crate::error::BlazeError;
use crate::span::Span;
use crate::text::{chars_of, push_char, text_of};
use crate::token::{Token, TokenKind};

verus! {

/// What the lexer emits for one token: its kind, decoded text and character range.
pub struct TokenSpec {
    pub kind: TokenKind,
    pub literal: Option<Seq<char>>,
    pub start: int,
    pub end: int,
}

/// A syntax error: its message and character range.
pub struct ErrorSpec {
    pub message: Seq<char>,
    pub start: int,
    pub end: int,
}

/// The outcome of scanning at one position: tokens, errors, and where scanning resumes.
pub struct Scanned {
    pub tokens: Seq<TokenSpec>,
    pub errors: Seq<ErrorSpec>,
    pub next: int,
}

/// The character classes that multi-character tokens are made of.
#[derive(Clone, Copy, PartialEq, Eq, Structural)]
pub enum CharClass {
    /// letters, digits and `_`
    Word,
    /// `0`-`9`
    Digit,
    /// `0`-`9` and `a`-`f`
    Hex,
    /// `0` and `1`
    Bin,
}

pub open spec fn is_letter(c: char) -> bool {
    ('a' <= c && c <= 'z') || ('A' <= c && c <= 'Z')
}

pub open spec fn is_digit(c: char) -> bool {
    '0' <= c && c <= '9'
}

pub open spec fn in_class(cls: CharClass, c: char) -> bool {
    match cls {
        CharClass::Word => is_letter(c) || is_digit(c) || c == '_',
        CharClass::Digit => is_digit(c),
        CharClass::Hex => is_digit(c) || ('a' <= c && c <= 'f'),
        CharClass::Bin => c == '0' || c == '1',
    }
}

/// Whether position `i` of `src` holds the character `c`.
pub open spec fn at(src: Seq<char>, i: int, c: char) -> bool {
    0 <= i < src.len() && src[i] == c
}

/// The end of the longest run of characters of class `cls` that starts at `i`.
pub open spec fn run_end(src: Seq<char>, i: int, cls: CharClass) -> int
    decreases src.len() - i,
{
    if 0 <= i < src.len() && in_class(cls, src[i]) {
        run_end(src, i + 1, cls)
    } else {
        i
    }
}

/// The kind of a word: a keyword or primitive type name, else an identifier.
pub open spec fn keyword_kind(w: Seq<char>) -> TokenKind {
    if w == "i8"@ {
        TokenKind::I8
    } else if w == "i16"@ {
        TokenKind::I16
    } else if w == "i32"@ {
        TokenKind::I32
    } else if w == "i64"@ {
        TokenKind::I64
    } else if w == "u8"@ {
        TokenKind::U8
    } else if w == "u16"@ {
        TokenKind::U16
    } else if w == "u32"@ {
        TokenKind::U32
    } else if w == "u64"@ {
        TokenKind::U64
    } else if w == "f32"@ {
        TokenKind::F32
    } else if w == "f64"@ {
        TokenKind::F64
    } else if w == "char"@ {
        TokenKind::Char
    } else if w == "bool"@ {
        TokenKind::Bool
    } else if w == "void"@ {
        TokenKind::Void
    } else if w == "namespace"@ {
        TokenKind::Namespace
    } else if w == "fn"@ {
        TokenKind::Fn
    } else if w == "return"@ {
        TokenKind::Return
    } else if w == "enum"@ {
        TokenKind::Enum
    } else if w == "union"@ {
        TokenKind::Union
    } else if w == "struct"@ {
        TokenKind::Struct
    } else if w == "self"@ {
        TokenKind::SelfKeyword
    } else if w == "while"@ {
        TokenKind::While
    } else if w == "mut"@ {
        TokenKind::Mut
    } else if w == "if"@ {
        TokenKind::If
    } else if w == "else"@ {
        TokenKind::Else
    } else if w == "import"@ {
        TokenKind::Import
    } else if w == "comptime"@ {
        TokenKind::Comptime
    } else if w == "try"@ {
        TokenKind::Try
    } else if w == "null"@ {
        TokenKind::Null
    } else {
        TokenKind::Identifier
    }
}

/// The character that a character-literal escape `\c` stands for.
pub open spec fn unescape(c: char) -> Option<char> {
    if c == 'n' {
        Some('\n')
    } else if c == 'r' {
        Some('\r')
    } else if c == 't' {
        Some('\t')
    } else if c == '\\' {
        Some('\\')
    } else if c == '\'' {
        Some('\'')
    } else if c == '"' {
        Some('"')
    } else if c == '0' {
        Some('\0')
    } else {
        None
    }
}

/// One token and nothing else.
pub open spec fn emit(kind: TokenKind, literal: Option<Seq<char>>, start: int, end: int) -> Scanned {
    Scanned {
        tokens: seq![TokenSpec { kind, literal, start, end }],
        errors: seq![],
        next: end,
    }
}

/// One error and nothing else.
pub open spec fn fail(message: Seq<char>, start: int, end: int, next: int) -> Scanned {
    Scanned { tokens: seq![], errors: seq![ErrorSpec { message, start, end }], next }
}

/// `single`, or `compound` when the next character is `=`.
pub open spec fn with_equals(
    src: Seq<char>,
    pos: int,
    single: TokenKind,
    compound: TokenKind,
) -> (TokenKind, int) {
    if at(src, pos + 1, '=') {
        (compound, 2)
    } else {
        (single, 1)
    }
}

/// Punctuation and operators at `pos`: the kind and the number of characters it takes.
pub open spec fn punctuation(src: Seq<char>, pos: int) -> Option<(TokenKind, int)> {
    let c = src[pos];
    if c == '(' {
        Some((TokenKind::OpenParenthesis, 1))
    } else if c == ')' {
        Some((TokenKind::CloseParenthesis, 1))
    } else if c == '[' {
        Some((TokenKind::OpenBracket, 1))
    } else if c == ']' {
        Some((TokenKind::CloseBracket, 1))
    } else if c == '{' {
        Some((TokenKind::OpenBrace, 1))
    } else if c == '}' {
        Some((TokenKind::CloseBrace, 1))
    } else if c == ',' {
        Some((TokenKind::Comma, 1))
    } else if c == ';' {
        Some((TokenKind::Semicolon, 1))
    } else if c == '&' {
        Some((TokenKind::Ampersand, 1))
    } else if c == '$' {
        Some((TokenKind::Dollar, 1))
    } else if c == '?' {
        Some((TokenKind::QuestionMark, 1))
    } else if c == ':' {
        if at(src, pos + 1, ':') {
            Some((TokenKind::DoubleColon, 2))
        } else if at(src, pos + 1, '=') {
            Some((TokenKind::ColonEquals, 2))
        } else {
            Some((TokenKind::Colon, 1))
        }
    } else if c == '.' {
        if at(src, pos + 1, '.') {
            if at(src, pos + 2, '.') {
                Some((TokenKind::Elipsis, 3))
            } else {
                Some((TokenKind::DoubleDot, 2))
            }
        } else {
            Some((TokenKind::Dot, 1))
        }
    } else if c == '-' {
        if at(src, pos + 1, '>') {
            Some((TokenKind::Arrow, 2))
        } else {
            Some(with_equals(src, pos, TokenKind::Minus, TokenKind::MinusEquals))
        }
    } else if c == '=' {
        Some(with_equals(src, pos, TokenKind::Equal, TokenKind::EqualEqual))
    } else if c == '!' {
        Some(with_equals(src, pos, TokenKind::Bang, TokenKind::BangEqual))
    } else if c == '>' {
        Some(with_equals(src, pos, TokenKind::Greater, TokenKind::GreaterEqual))
    } else if c == '<' {
        Some(with_equals(src, pos, TokenKind::Less, TokenKind::LessEqual))
    } else if c == '+' {
        Some(with_equals(src, pos, TokenKind::Plus, TokenKind::PlusEquals))
    } else if c == '*' {
        Some(with_equals(src, pos, TokenKind::Asterisk, TokenKind::AsteriskEquals))
    } else if c == '/' {
        Some(with_equals(src, pos, TokenKind::Slash, TokenKind::SlashEquals))
    } else if c == '%' {
        Some(with_equals(src, pos, TokenKind::Percent, TokenKind::PercentEquals))
    } else {
        None
    }
}

/// A numeric literal at `pos`: `0x` hexadecimal and `0b` binary digits (prefix not part of
/// the text), else decimal digits; a following `.` and digits make it a float.
pub open spec fn scan_number(src: Seq<char>, pos: int) -> Scanned {
    let hex = src[pos] == '0' && at(src, pos + 1, 'x');
    let bin = src[pos] == '0' && at(src, pos + 1, 'b') && !hex;
    let text_start = if hex || bin {
        pos + 2
    } else {
        pos
    };
    let body_end = if hex {
        run_end(src, pos + 2, CharClass::Hex)
    } else if bin {
        run_end(src, pos + 2, CharClass::Bin)
    } else {
        run_end(src, pos, CharClass::Digit)
    };
    if at(src, body_end, '.') {
        let e = run_end(src, body_end + 1, CharClass::Digit);
        emit(TokenKind::FloatLiteral, Some(src.subrange(text_start, e)), pos, e)
    } else {
        let kind = if hex {
            TokenKind::HexadecimalLiteral
        } else if bin {
            TokenKind::BinaryLiteral
        } else {
            TokenKind::IntegerLiteral
        };
        emit(kind, Some(src.subrange(text_start, body_end)), pos, body_end)
    }
}

/// The position of the `"` that closes a string whose contents start at `p`; a backslash
/// takes the character after it along.
pub open spec fn string_close(src: Seq<char>, p: int) -> Option<int>
    decreases src.len() - p,
{
    if p < 0 || p >= src.len() {
        None
    } else if src[p] == '"' {
        Some(p)
    } else if src[p] == '\\' {
        if p + 1 < src.len() {
            string_close(src, p + 2)
        } else {
            None
        }
    } else {
        string_close(src, p + 1)
    }
}

/// A string literal opening at `pos`: its text is what stands between the quotes, verbatim.
pub open spec fn scan_string(src: Seq<char>, pos: int) -> Scanned {
    match string_close(src, pos + 1) {
        Some(q) => emit(TokenKind::StringLiteral, Some(src.subrange(pos + 1, q)), pos, q + 1),
        None => fail("unterminated string literal"@, pos, src.len() as int, src.len() as int),
    }
}

/// The end of a character literal whose one character has been read up to `q`.
pub open spec fn close_char(
    src: Seq<char>,
    pos: int,
    q: int,
    literal: Seq<char>,
    errors: Seq<ErrorSpec>,
) -> Scanned {
    if at(src, q, '\'') {
        Scanned {
            tokens: seq![
                TokenSpec {
                    kind: TokenKind::CharLiteral,
                    literal: Some(literal),
                    start: pos,
                    end: q + 1,
                },
            ],
            errors,
            next: q + 1,
        }
    } else {
        Scanned {
            tokens: seq![],
            errors: errors.push(
                ErrorSpec { message: "unterminated character literal"@, start: pos, end: q },
            ),
            next: q,
        }
    }
}

/// A character literal opening at `pos`: one character or one escape, then `'`.
pub open spec fn scan_char(src: Seq<char>, pos: int) -> Scanned {
    let p = pos + 1;
    let len = src.len() as int;
    if p >= len || (src[p] == '\\' && p + 1 >= len) {
        fail("unterminated character literal"@, pos, len, len)
    } else if src[p] == '\\' {
        let c = src[p + 1];
        match unescape(c) {
            Some(d) => close_char(src, pos, p + 2, seq![d], seq![]),
            None => close_char(
                src,
                pos,
                p + 2,
                seq![],
                seq![
                    ErrorSpec {
                        message: "invalid escape sequence: '\\"@ + seq![c] + "'"@,
                        start: p,
                        end: p + 2,
                    },
                ],
            ),
        }
    } else {
        close_char(src, pos, p + 1, seq![src[p]], seq![])
    }
}

/// Scanning at `pos`, which must be inside `src`.
pub open spec fn scan(src: Seq<char>, pos: int) -> Scanned {
    let c = src[pos];
    if c == ' ' || c == '\r' || c == '\t' {
        Scanned { tokens: seq![], errors: seq![], next: pos + 1 }
    } else if c == '\n' {
        emit(TokenKind::Newline, None, pos, pos + 1)
    } else if is_letter(c) || c == '_' {
        let e = run_end(src, pos + 1, CharClass::Word);
        let w = src.subrange(pos, e);
        emit(keyword_kind(w), Some(w), pos, e)
    } else if is_digit(c) {
        scan_number(src, pos)
    } else if c == '"' {
        scan_string(src, pos)
    } else if c == '\'' {
        scan_char(src, pos)
    } else {
        match punctuation(src, pos) {
            Some((kind, n)) => emit(kind, None, pos, pos + n),
            None => fail("Unexpected character: '"@ + seq![c] + "'"@, pos, pos + 1, pos + 1),
        }
    }
}

/// Tokens and errors of `src` from `pos` on.
pub open spec fn lex_from(src: Seq<char>, pos: int) -> (Seq<TokenSpec>, Seq<ErrorSpec>)
    decreases src.len() - pos,
{
    if pos < 0 || pos >= src.len() {
        (seq![], seq![])
    } else {
        let s = scan(src, pos);
        if s.next <= pos || s.next > src.len() {
            (s.tokens, s.errors)
        } else {
            let rest = lex_from(src, s.next);
            (s.tokens + rest.0, s.errors + rest.1)
        }
    }
}

/// Tokens and errors of a whole source text.
pub open spec fn lex_spec(src: Seq<char>) -> (Seq<TokenSpec>, Seq<ErrorSpec>) {
    lex_from(src, 0)
}

/// A token as the lexer of file `file` describes it.
pub open spec fn token_matches(t: Token, m: TokenSpec, file: Seq<char>) -> bool {
    &&& t.kind == m.kind
    &&& t.span.filename@ == file
    &&& t.span.start == m.start
    &&& t.span.end == m.end
    &&& match m.literal {
        Some(l) => t.literal is Some && t.literal->0@ == l,
        None => t.literal is None,
    }
}

pub open spec fn tokens_match(ts: Seq<Token>, ms: Seq<TokenSpec>, file: Seq<char>) -> bool {
    &&& ts.len() == ms.len()
    &&& forall|i: int| 0 <= i < ts.len() ==> token_matches(#[trigger] ts[i], ms[i], file)
}

/// A syntax error as the lexer of file `file` describes it.
pub open spec fn error_matches(e: BlazeError, m: ErrorSpec, file: Seq<char>) -> bool {
    match e {
        BlazeError::SyntaxError(msg, sp) => msg@ == m.message && sp.filename@ == file && sp.start
            == m.start && sp.end == m.end,
        _ => false,
    }
}

pub open spec fn errors_match(es: Seq<BlazeError>, ms: Seq<ErrorSpec>, file: Seq<char>) -> bool {
    &&& es.len() == ms.len()
    &&& forall|i: int| 0 <= i < es.len() ==> error_matches(#[trigger] es[i], ms[i], file)
}

/// Scans a source text into tokens.
pub struct Lexer {
    pub filename: String,
    pub source: String,
    pub tokens: Vec<Token>,
    pub current: usize,
}

fn class_has(cls: CharClass, c: char) -> (r: bool)
    ensures
        r == in_class(cls, c),
{
    match cls {
        CharClass::Word => ('a' <= c && c <= 'z') || ('A' <= c && c <= 'Z') || ('0' <= c && c
            <= '9') || c == '_',
        CharClass::Digit => '0' <= c && c <= '9',
        CharClass::Hex => ('0' <= c && c <= '9') || ('a' <= c && c <= 'f'),
        CharClass::Bin => c == '0' || c == '1',
    }
}

fn run(src: &Vec<char>, i: usize, cls: CharClass) -> (e: usize)
    requires
        i <= src@.len(),
    ensures
        e == run_end(src@, i as int, cls),
        i <= e <= src@.len(),
        i < src@.len() && in_class(cls, src@[i as int]) ==> i < e,
{
    let mut j = i;
    while j < src.len() && class_has(cls, src[j])
        invariant
            i <= j <= src@.len(),
            run_end(src@, i as int, cls) == run_end(src@, j as int, cls),
        decreases src@.len() - j,
    {
        j = j + 1;
    }
    j
}

fn is_at(src: &Vec<char>, i: usize, c: char) -> (r: bool)
    ensures
        r == at(src@, i as int, c),
{
    i < src.len() && src[i] == c
}

/// Whether the character `k` places after `pos` is `c`.
fn is_after(src: &Vec<char>, pos: usize, k: usize, c: char) -> (r: bool)
    requires
        pos < src@.len(),
    ensures
        r == at(src@, pos + k, c),
{
    k < src.len() - pos && src[pos + k] == c
}

fn keyword(w: &String) -> (k: TokenKind)
    ensures
        k == keyword_kind(w@),
{
    if *w == String::from_str("i8") {
        TokenKind::I8
    } else if *w == String::from_str("i16") {
        TokenKind::I16
    } else if *w == String::from_str("i32") {
        TokenKind::I32
    } else if *w == String::from_str("i64") {
        TokenKind::I64
    } else if *w == String::from_str("u8") {
        TokenKind::U8
    } else if *w == String::from_str("u16") {
        TokenKind::U16
    } else if *w == String::from_str("u32") {
        TokenKind::U32
    } else if *w == String::from_str("u64") {
        TokenKind::U64
    } else if *w == String::from_str("f32") {
        TokenKind::F32
    } else if *w == String::from_str("f64") {
        TokenKind::F64
    } else if *w == String::from_str("char") {
        TokenKind::Char
    } else if *w == String::from_str("bool") {
        TokenKind::Bool
    } else if *w == String::from_str("void") {
        TokenKind::Void
    } else if *w == String::from_str("namespace") {
        TokenKind::Namespace
    } else if *w == String::from_str("fn") {
        TokenKind::Fn
    } else if *w == String::from_str("return") {
        TokenKind::Return
    } else if *w == String::from_str("enum") {
        TokenKind::Enum
    } else if *w == String::from_str("union") {
        TokenKind::Union
    } else if *w == String::from_str("struct") {
        TokenKind::Struct
    } else if *w == String::from_str("self") {
        TokenKind::SelfKeyword
    } else if *w == String::from_str("while") {
        TokenKind::While
    } else if *w == String::from_str("mut") {
        TokenKind::Mut
    } else if *w == String::from_str("if") {
        TokenKind::If
    } else if *w == String::from_str("else") {
        TokenKind::Else
    } else if *w == String::from_str("import") {
        TokenKind::Import
    } else if *w == String::from_str("comptime") {
        TokenKind::Comptime
    } else if *w == String::from_str("try") {
        TokenKind::Try
    } else if *w == String::from_str("null") {
        TokenKind::Null
    } else {
        TokenKind::Identifier
    }
}

fn unescape_char(c: char) -> (r: Option<char>)
    ensures
        r == unescape(c),
{
    if c == 'n' {
        Some('\n')
    } else if c == 'r' {
        Some('\r')
    } else if c == 't' {
        Some('\t')
    } else if c == '\\' {
        Some('\\')
    } else if c == '\'' {
        Some('\'')
    } else if c == '"' {
        Some('"')
    } else if c == '0' {
        Some('\0')
    } else {
        None
    }
}

fn punctuation_at(src: &Vec<char>, pos: usize) -> (r: Option<(TokenKind, usize)>)
    requires
        pos < src@.len(),
    ensures
        match punctuation(src@, pos as int) {
            Some((k, n)) => r == Some((k, n as usize)) && 1 <= n <= 3 && pos + n <= src@.len(),
            None => r is None,
        },
{
    let len = src.len();
    let c = src[pos];
    let eq = is_after(src, pos, 1, '=');
    if c == '(' {
        Some((TokenKind::OpenParenthesis, 1))
    } else if c == ')' {
        Some((TokenKind::CloseParenthesis, 1))
    } else if c == '[' {
        Some((TokenKind::OpenBracket, 1))
    } else if c == ']' {
        Some((TokenKind::CloseBracket, 1))
    } else if c == '{' {
        Some((TokenKind::OpenBrace, 1))
    } else if c == '}' {
        Some((TokenKind::CloseBrace, 1))
    } else if c == ',' {
        Some((TokenKind::Comma, 1))
    } else if c == ';' {
        Some((TokenKind::Semicolon, 1))
    } else if c == '&' {
        Some((TokenKind::Ampersand, 1))
    } else if c == '$' {
        Some((TokenKind::Dollar, 1))
    } else if c == '?' {
        Some((TokenKind::QuestionMark, 1))
    } else if c == ':' {
        if is_after(src, pos, 1, ':') {
            Some((TokenKind::DoubleColon, 2))
        } else if eq {
            Some((TokenKind::ColonEquals, 2))
        } else {
            Some((TokenKind::Colon, 1))
        }
    } else if c == '.' {
        if is_after(src, pos, 1, '.') {
            if is_after(src, pos, 2, '.') {
                Some((TokenKind::Elipsis, 3))
            } else {
                Some((TokenKind::DoubleDot, 2))
            }
        } else {
            Some((TokenKind::Dot, 1))
        }
    } else if c == '-' {
        if is_after(src, pos, 1, '>') {
            Some((TokenKind::Arrow, 2))
        } else if eq {
            Some((TokenKind::MinusEquals, 2))
        } else {
            Some((TokenKind::Minus, 1))
        }
    } else if c == '=' {
        if eq {
            Some((TokenKind::EqualEqual, 2))
        } else {
            Some((TokenKind::Equal, 1))
        }
    } else if c == '!' {
        if eq {
            Some((TokenKind::BangEqual, 2))
        } else {
            Some((TokenKind::Bang, 1))
        }
    } else if c == '>' {
        if eq {
            Some((TokenKind::GreaterEqual, 2))
        } else {
            Some((TokenKind::Greater, 1))
        }
    } else if c == '<' {
        if eq {
            Some((TokenKind::LessEqual, 2))
        } else {
            Some((TokenKind::Less, 1))
        }
    } else if c == '+' {
        if eq {
            Some((TokenKind::PlusEquals, 2))
        } else {
            Some((TokenKind::Plus, 1))
        }
    } else if c == '*' {
        if eq {
            Some((TokenKind::AsteriskEquals, 2))
        } else {
            Some((TokenKind::Asterisk, 1))
        }
    } else if c == '/' {
        if eq {
            Some((TokenKind::SlashEquals, 2))
        } else {
            Some((TokenKind::Slash, 1))
        }
    } else if c == '%' {
        if eq {
            Some((TokenKind::PercentEquals, 2))
        } else {
            Some((TokenKind::Percent, 1))
        }
    } else {
        None
    }
}

fn find_string_close(src: &Vec<char>, p0: usize) -> (r: Option<usize>)
    requires
        p0 <= src@.len(),
    ensures
        match string_close(src@, p0 as int) {
            Some(q) => r == Some(q as usize) && p0 <= q < src@.len(),
            None => r is None,
        },
{
    let mut p = p0;
    loop
        invariant
            p0 <= p <= src@.len(),
            string_close(src@, p0 as int) == string_close(src@, p as int),
        decreases src@.len() - p,
    {
        if p >= src.len() {
            return None;
        }
        if src[p] == '"' {
            return Some(p);
        }
        if src[p] == '\\' {
            if p + 1 < src.len() {
                p = p + 2;
            } else {
                return None;
            }
        } else {
            p = p + 1;
        }
    }
}

impl Lexer {
    /// A lexer over `source`, read from the file `filename`.
    pub fn new(filename: String, source: String) -> (r: Lexer)
        ensures
            r.filename == filename,
            r.source == source,
            r.tokens@.len() == 0,
            r.current == 0,
    {
        Lexer { filename, source, tokens: Vec::new(), current: 0 }
    }

    fn token(&self, kind: TokenKind, literal: Option<String>, start: usize, end: usize) -> (r:
        Token)
        ensures
            r.kind == kind,
            r.literal == literal,
            r.span.filename@ == self.filename@,
            r.span.start == start,
            r.span.end == end,
    {
        Token { kind, literal, span: Span { filename: self.filename.clone(), start, end } }
    }

    fn error(&self, message: String, start: usize, end: usize) -> (r: BlazeError)
        ensures
            error_matches(
                r,
                ErrorSpec { message: message@, start: start as int, end: end as int },
                self.filename@,
            ),
    {
        BlazeError::SyntaxError(message, Span { filename: self.filename.clone(), start, end })
    }

    /// Emits what `scan` describes at `pos` and returns where scanning resumes.
    fn scan_at(
        &self,
        src: &Vec<char>,
        pos: usize,
        tokens: &mut Vec<Token>,
        errors: &mut Vec<BlazeError>,
    ) -> (next: usize)
        requires
            pos < src@.len(),
        ensures
            next == scan(src@, pos as int).next,
            pos < next <= src@.len(),
            tokens_match(
                final(tokens)@.subrange(old(tokens)@.len() as int, final(tokens)@.len() as int),
                scan(src@, pos as int).tokens,
                self.filename@,
            ),
            final(tokens)@.subrange(0, old(tokens)@.len() as int) == old(tokens)@,
            old(tokens)@.len() <= final(tokens)@.len(),
            errors_match(
                final(errors)@.subrange(old(errors)@.len() as int, final(errors)@.len() as int),
                scan(src@, pos as int).errors,
                self.filename@,
            ),
            final(errors)@.subrange(0, old(errors)@.len() as int) == old(errors)@,
            old(errors)@.len() <= final(errors)@.len(),
    {
        let ghost s = src@;
        let ghost t0 = tokens@;
        let ghost e0 = errors@;
        let ghost f = self.filename@;
        let len = src.len();
        let c = src[pos];
        if c == ' ' || c == '\r' || c == '\t' {
            proof {
                assert(tokens@.subrange(t0.len() as int, tokens@.len() as int) =~= seq![]);
                assert(errors@.subrange(e0.len() as int, errors@.len() as int) =~= seq![]);
                assert(tokens@.subrange(0, t0.len() as int) =~= t0);
                assert(errors@.subrange(0, e0.len() as int) =~= e0);
            }
            return pos + 1;
        }
        let mut new_tokens: Vec<Token> = Vec::new();
        let mut new_errors: Vec<BlazeError> = Vec::new();
        let next: usize;
        if c == '\n' {
            new_tokens.push(self.token(TokenKind::Newline, None, pos, pos + 1));
            next = pos + 1;
        } else if ('a' <= c && c <= 'z') || ('A' <= c && c <= 'Z') || c == '_' {
            let e = run(src, pos + 1, CharClass::Word);
            let w = text_of(src, pos, e);
            let kind = keyword(&w);
            new_tokens.push(self.token(kind, Some(w), pos, e));
            next = e;
        } else if '0' <= c && c <= '9' {
            let hex = c == '0' && is_after(src, pos, 1, 'x');
            let bin = c == '0' && is_after(src, pos, 1, 'b') && !hex;
            let text_start = if hex || bin {
                pos + 2
            } else {
                pos
            };
            let body_end = if hex {
                run(src, pos + 2, CharClass::Hex)
            } else if bin {
                run(src, pos + 2, CharClass::Bin)
            } else {
                run(src, pos, CharClass::Digit)
            };
            if is_at(src, body_end, '.') {
                let e = run(src, body_end + 1, CharClass::Digit);
                let lit = text_of(src, text_start, e);
                new_tokens.push(self.token(TokenKind::FloatLiteral, Some(lit), pos, e));
                next = e;
            } else {
                let kind = if hex {
                    TokenKind::HexadecimalLiteral
                } else if bin {
                    TokenKind::BinaryLiteral
                } else {
                    TokenKind::IntegerLiteral
                };
                let lit = text_of(src, text_start, body_end);
                new_tokens.push(self.token(kind, Some(lit), pos, body_end));
                next = body_end;
            }
        } else if c == '"' {
            match find_string_close(src, pos + 1) {
                Some(q) => {
                    let lit = text_of(src, pos + 1, q);
                    new_tokens.push(self.token(TokenKind::StringLiteral, Some(lit), pos, q + 1));
                    next = q + 1;
                },
                None => {
                    let msg = String::from_str("unterminated string literal");
                    new_errors.push(self.error(msg, pos, src.len()));
                    next = src.len();
                },
            }
        } else if c == '\'' {
            let p = pos + 1;
            let len = src.len();
            if p >= len || (src[p] == '\\' && p + 1 >= len) {
                let msg = String::from_str("unterminated character literal");
                new_errors.push(self.error(msg, pos, len));
                next = len;
            } else {
                let q: usize;
                let mut lit = String::new();
                if src[p] == '\\' {
                    let e = src[p + 1];
                    match unescape_char(e) {
                        Some(d) => {
                            push_char(&mut lit, d);
                        },
                        None => {
                            let mut msg = String::from_str("invalid escape sequence: '\\");
                            push_char(&mut msg, e);
                            msg.append("'");
                            proof {
                                assert(msg@ =~= "invalid escape sequence: '\\"@ + seq![e] + "'"@);
                            }
                            new_errors.push(self.error(msg, p, p + 2));
                        },
                    }
                    q = p + 2;
                } else {
                    push_char(&mut lit, src[p]);
                    q = p + 1;
                }
                if is_at(src, q, '\'') {
                    new_tokens.push(self.token(TokenKind::CharLiteral, Some(lit), pos, q + 1));
                    next = q + 1;
                } else {
                    let msg = String::from_str("unterminated character literal");
                    new_errors.push(self.error(msg, pos, q));
                    next = q;
                }
            }
        } else {
            match punctuation_at(src, pos) {
                Some((kind, n)) => {
                    new_tokens.push(self.token(kind, None, pos, pos + n));
                    next = pos + n;
                },
                None => {
                    let mut msg = String::from_str("Unexpected character: '");
                    push_char(&mut msg, c);
                    msg.append("'");
                    proof {
                        assert(msg@ =~= "Unexpected character: '"@ + seq![c] + "'"@);
                    }
                    new_errors.push(self.error(msg, pos, pos + 1));
                    next = pos + 1;
                },
            }
        }
        proof {
            let sc = scan(s, pos as int);
            assert(next == sc.next);
            assert(tokens_match(new_tokens@, sc.tokens, f));
            assert(errors_match(new_errors@, sc.errors, f));
        }
        let ghost nt = new_tokens@;
        let ghost ne = new_errors@;
        tokens.append(&mut new_tokens);
        errors.append(&mut new_errors);
        proof {
            assert(tokens@.subrange(t0.len() as int, tokens@.len() as int) =~= nt);
            assert(errors@.subrange(e0.len() as int, errors@.len() as int) =~= ne);
            assert(tokens@.subrange(0, t0.len() as int) =~= t0);
            assert(errors@.subrange(0, e0.len() as int) =~= e0);
        }
        next
    }

    /// Splits the source into tokens. Succeeds with every token of the source, in order,
    /// when scanning records no error; otherwise fails with every error recorded.
    pub fn lex(&mut self) -> (r: Result<Vec<Token>, Vec<BlazeError>>)
        ensures
            final(self).filename == old(self).filename,
            final(self).source == old(self).source,
            lex_spec(old(self).source@).1.len() == 0 ==> r is Ok && tokens_match(
                r->Ok_0@,
                lex_spec(old(self).source@).0,
                old(self).filename@,
            ),
            lex_spec(old(self).source@).1.len() > 0 ==> r is Err && errors_match(
                r->Err_0@,
                lex_spec(old(self).source@).1,
                old(self).filename@,
            ),
    {
        let src = chars_of(&self.source);
        let mut tokens: Vec<Token> = Vec::new();
        let mut errors: Vec<BlazeError> = Vec::new();
        let mut pos: usize = 0;
        let ghost whole = lex_spec(src@);
        while pos < src.len()
            invariant
                src@ == self.source@,
                pos <= src@.len(),
                whole == lex_from(src@, 0),
                tokens@.len() <= whole.0.len(),
                errors@.len() <= whole.1.len(),
                tokens_match(tokens@, whole.0.subrange(0, tokens@.len() as int), self.filename@),
                errors_match(errors@, whole.1.subrange(0, errors@.len() as int), self.filename@),
                whole.0 == whole.0.subrange(0, tokens@.len() as int) + lex_from(src@, pos as int).0,
                whole.1 == whole.1.subrange(0, errors@.len() as int) + lex_from(src@, pos as int).1,
            decreases src@.len() - pos,
        {
            let ghost t0 = tokens@;
            let ghost e0 = errors@;
            let ghost sc = scan(src@, pos as int);
            let ghost rest = lex_from(src@, pos as int);
            let next = self.scan_at(&src, pos, &mut tokens, &mut errors);
            proof {
                let after = lex_from(src@, next as int);
                assert(rest.0 == sc.tokens + after.0);
                assert(rest.1 == sc.errors + after.1);
                let pt = whole.0.subrange(0, t0.len() as int);
                let pe = whole.1.subrange(0, e0.len() as int);
                assert(whole.0 =~= (pt + sc.tokens) + after.0);
                assert(whole.1 =~= (pe + sc.errors) + after.1);
                assert(tokens@ =~= t0 + tokens@.subrange(t0.len() as int, tokens@.len() as int));
                assert(errors@ =~= e0 + errors@.subrange(e0.len() as int, errors@.len() as int));
                assert(whole.0.subrange(0, tokens@.len() as int) =~= pt + sc.tokens);
                assert(whole.1.subrange(0, errors@.len() as int) =~= pe + sc.errors);
                assert forall|i: int| 0 <= i < tokens@.len() implies token_matches(
                    #[trigger] tokens@[i],
                    whole.0.subrange(0, tokens@.len() as int)[i],
                    self.filename@,
                ) by {
                    if i < t0.len() {
                        assert(tokens@[i] == t0[i]);
                    } else {
                        assert(tokens@[i] == tokens@.subrange(
                            t0.len() as int,
                            tokens@.len() as int,
                        )[i - t0.len()]);
                    }
                }
                assert forall|i: int| 0 <= i < errors@.len() implies error_matches(
                    #[trigger] errors@[i],
                    whole.1.subrange(0, errors@.len() as int)[i],
                    self.filename@,
                ) by {
                    if i < e0.len() {
                        assert(errors@[i] == e0[i]);
                    } else {
                        assert(errors@[i] == errors@.subrange(
                            e0.len() as int,
                            errors@.len() as int,
                        )[i - e0.len()]);
                    }
                }
            }
            pos = next;
        }
        proof {
            assert(lex_from(src@, pos as int).0 =~= seq![]);
            assert(whole.0.subrange(0, tokens@.len() as int) =~= whole.0);
            assert(whole.1.subrange(0, errors@.len() as int) =~= whole.1);
        }
        self.current = pos;
        if errors.len() > 0 {
            Err(errors)
        } else {
            let out = tokens_copy(&tokens);
            self.tokens = tokens;
            Ok(out)
        }
    }
}

fn tokens_copy(ts: &Vec<Token>) -> (r: Vec<Token>)
    ensures
        r@ == ts@,
{
    let mut out: Vec<Token> = Vec::new();
    let mut i: usize = 0;
    while i < ts.len()
        invariant
            i <= ts@.len(),
            out@ == ts@.subrange(0, i as int),
        decreases ts@.len() - i,
    {
        out.push(ts[i].duplicate());
        i = i + 1;
        proof {
            assert(out@ =~= ts@.subrange(0, i as int));
        }
    }
    proof {
        assert(out@ =~= ts@);
    }
    out
}


proof fn lemma_run_end_bounds(src: Seq<char>, i: int, cls: CharClass)
    requires
        0 <= i <= src.len(),
    ensures
        i <= run_end(src, i, cls) <= src.len(),
        run_end(src, i, cls) < src.len() ==> !in_class(cls, src[run_end(src, i, cls)]),
    decreases src.len() - i,
{
    if i < src.len() && in_class(cls, src[i]) {
        lemma_run_end_bounds(src, i + 1, cls);
    }
}

proof fn lemma_string_close_bounds(src: Seq<char>, p: int)
    requires
        0 <= p,
    ensures
        string_close(src, p) is Some ==> p <= string_close(src, p)->0 < src.len(),
    decreases src.len() - p,
{
    if p < src.len() && src[p] != '"' {
        if src[p] == '\\' {
            if p + 1 < src.len() {
                lemma_string_close_bounds(src, p + 2);
            }
        } else {
            lemma_string_close_bounds(src, p + 1);
        }
    }
}

/// Scanning inside the text moves forward and stays inside it, emits at most one token,
/// which starts where scanning did and, when it carries text, ends where scanning resumes.
proof fn lemma_scan_progress(src: Seq<char>, pos: int)
    requires
        0 <= pos < src.len(),
    ensures
        pos < scan(src, pos).next <= src.len(),
        scan(src, pos).tokens.len() <= 1,
        scan(src, pos).tokens.len() == 1 ==> scan(src, pos).tokens[0].start == pos,
        scan(src, pos).tokens.len() == 1 && scan(src, pos).tokens[0].literal is Some ==> scan(
            src,
            pos,
        ).tokens[0].end == scan(src, pos).next,
{
    let c = src[pos];
    lemma_run_end_bounds(src, pos + 1, CharClass::Word);
    lemma_run_end_bounds(src, pos, CharClass::Digit);
    if pos + 2 <= src.len() {
        lemma_run_end_bounds(src, pos + 2, CharClass::Hex);
        lemma_run_end_bounds(src, pos + 2, CharClass::Bin);
    }
    if is_digit(c) {
        let hex = c == '0' && at(src, pos + 1, 'x');
        let bin = c == '0' && at(src, pos + 1, 'b') && !hex;
        let body_end = if hex {
            run_end(src, pos + 2, CharClass::Hex)
        } else if bin {
            run_end(src, pos + 2, CharClass::Bin)
        } else {
            run_end(src, pos, CharClass::Digit)
        };
        if at(src, body_end, '.') {
            lemma_run_end_bounds(src, body_end + 1, CharClass::Digit);
        }
    }
    lemma_string_close_bounds(src, pos + 1);
}

/// The runs of a character class read the same inside a stretch of text that holds them.
proof fn lemma_run_local(src: Seq<char>, q: int, e: int, j: int, cls: CharClass)
    requires
        0 <= q <= j <= e <= src.len(),
        run_end(src, j, cls) <= e,
    ensures
        run_end(src.subrange(q, e), j - q, cls) == run_end(src, j, cls) - q,
    decreases e - j,
{
    lemma_run_end_bounds(src, j, cls);
    if j < e && in_class(cls, src[j]) {
        lemma_run_local(src, q, e, j + 1, cls);
    }
}

/// A string literal closes at the same quote inside a stretch of text that holds it.
proof fn lemma_string_local(src: Seq<char>, q: int, p: int, c: int)
    requires
        0 <= q < p <= c < src.len(),
        string_close(src, p) == Some(c),
    ensures
        string_close(src.subrange(q, c + 1), p - q) == Some(c - q),
    decreases c - p,
{
    if src[p] != '"' {
        if src[p] == '\\' {
            lemma_string_close_bounds(src, p + 2);
            lemma_string_local(src, q, p + 2, c);
        } else {
            lemma_string_close_bounds(src, p + 1);
            lemma_string_local(src, q, p + 1, c);
        }
    }
}

/// `t` moved `q` characters to the left.
pub open spec fn shifted(t: TokenSpec, q: int) -> TokenSpec {
    TokenSpec { kind: t.kind, literal: t.literal, start: t.start - q, end: t.end - q }
}

/// Scanning the text of a token that carries text, on its own, gives that token and uses it all.
proof fn lemma_scan_local(src: Seq<char>, q: int)
    requires
        0 <= q < src.len(),
        scan(src, q).tokens.len() == 1,
        scan(src, q).tokens[0].literal is Some,
    ensures
        ({
            let sub = src.subrange(q, scan(src, q).next);
            &&& scan(sub, 0).next == sub.len()
            &&& scan(sub, 0).tokens == seq![shifted(scan(src, q).tokens[0], q)]
            &&& scan(sub, 0).errors.len() == scan(src, q).errors.len()
        }),
{
    lemma_scan_progress(src, q);
    let sc = scan(src, q);
    let next = sc.next;
    let sub = src.subrange(q, next);
    let c = src[q];
    assert(sub[0] == c);
    if is_letter(c) || c == '_' {
        let e = run_end(src, q + 1, CharClass::Word);
        lemma_run_local(src, q, e, q + 1, CharClass::Word);
        assert(sub.subrange(0, e - q) =~= src.subrange(q, e));
    } else if is_digit(c) {
        let hex = c == '0' && at(src, q + 1, 'x');
        let bin = c == '0' && at(src, q + 1, 'b') && !hex;
        let text_start = if hex || bin {
            q + 2
        } else {
            q
        };
        let cls = if hex {
            CharClass::Hex
        } else if bin {
            CharClass::Bin
        } else {
            CharClass::Digit
        };
        let body_end = run_end(src, text_start, cls);
        assert(sc == scan_number(src, q));
        lemma_run_end_bounds(src, q, CharClass::Digit);
        if hex || bin {
            lemma_run_end_bounds(src, q + 2, cls);
        }
        lemma_run_end_bounds(src, text_start, cls);
        if at(src, body_end, '.') {
            let f = run_end(src, body_end + 1, CharClass::Digit);
            lemma_run_end_bounds(src, body_end + 1, CharClass::Digit);
            assert(next == f);
            if c == '0' {
                assert(at(sub, 1, 'x') == at(src, q + 1, 'x'));
                assert(at(sub, 1, 'b') == at(src, q + 1, 'b'));
            }
            lemma_run_local(src, q, next, text_start, cls);
            lemma_run_local(src, q, next, body_end + 1, CharClass::Digit);
            assert(at(sub, body_end - q, '.'));
            assert(sub.subrange(text_start - q, f - q) =~= src.subrange(text_start, f));
        } else {
            assert(next == body_end);
            if c == '0' {
                assert(at(sub, 1, 'x') == at(src, q + 1, 'x'));
                assert(at(sub, 1, 'b') == at(src, q + 1, 'b'));
            }
            lemma_run_local(src, q, next, text_start, cls);
            assert(!at(sub, body_end - q, '.'));
            assert(sub.subrange(text_start - q, body_end - q) =~= src.subrange(text_start, body_end));
        }
    } else if c == '"' {
        lemma_string_close_bounds(src, q + 1);
        let close = string_close(src, q + 1)->0;
        lemma_string_local(src, q, q + 1, close);
        assert(sub.subrange(1, close - q) =~= src.subrange(q + 1, close));
    } else if c == '\'' {
        assert(sub[1] == src[q + 1]);
        if src[q + 1] == '\\' {
            assert(sub[2] == src[q + 2]);
            assert(sub[3] == src[q + 3]);
        } else {
            assert(sub[2] == src[q + 2]);
        }
    }
}

/// Every token of `lex_from(src, pos)` is the one token that `scan` emits at some position
/// from `pos` on.
proof fn lemma_token_origin(src: Seq<char>, pos: int, j: int) -> (q: int)
    requires
        0 <= pos,
        0 <= j < lex_from(src, pos).0.len(),
    ensures
        pos <= q < src.len(),
        scan(src, q).tokens.len() == 1,
        scan(src, q).tokens[0] == lex_from(src, pos).0[j],
        lex_from(src, pos).1.len() == 0 ==> scan(src, q).errors.len() == 0,
    decreases src.len() - pos,
{
    lemma_scan_progress(src, pos);
    let sc = scan(src, pos);
    if j < sc.tokens.len() {
        pos
    } else {
        lemma_token_origin(src, sc.next, j - sc.tokens.len())
    }
}

/// Re-lexing the exact text that a token with a literal spans gives that token back, alone,
/// with the same kind and literal.
pub proof fn lemma_relex_token(src: Seq<char>, j: int)
    requires
        0 <= j < lex_spec(src).0.len(),
        lex_spec(src).0[j].literal is Some,
    ensures
        ({
            let t = lex_spec(src).0[j];
            &&& 0 <= t.start < t.end <= src.len()
            &&& lex_spec(src.subrange(t.start, t.end)).0 == seq![
                TokenSpec { kind: t.kind, literal: t.literal, start: 0, end: t.end - t.start },
            ]
            &&& lex_spec(src).1.len() == 0 ==> lex_spec(src.subrange(t.start, t.end)).1.len() == 0
        }),
{
    let q = lemma_token_origin(src, 0, j);
    lemma_scan_progress(src, q);
    lemma_scan_local(src, q);
    let t = lex_spec(src).0[j];
    let sub = src.subrange(q, scan(src, q).next);
    assert(lex_from(sub, sub.len() as int).0 =~= seq![]);
    assert(lex_spec(sub).0 =~= seq![shifted(t, q)]);
    assert(lex_from(sub, sub.len() as int).1 =~= seq![]);
    assert(lex_spec(sub).1 =~= scan(sub, 0).errors);
}

} // verus!
