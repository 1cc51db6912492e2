use blaze::error::BlazeError;
use blaze::lexer::Lexer;
use blaze::token::{Token, TokenKind};

fn lex(src: &str) -> Result<Vec<Token>, Vec<BlazeError>> {
    Lexer::new("test.bl".to_string(), src.to_string()).lex()
}

fn kinds(tokens: &[Token]) -> Vec<TokenKind> {
    tokens.iter().map(|t| t.kind).collect()
}

fn literal(t: &Token) -> &str {
    t.literal.as_deref().unwrap()
}

fn message(e: &BlazeError) -> String {
    match e {
        BlazeError::SyntaxError(m, _) => m.clone(),
        other => panic!("not a syntax error: {:?}", other),
    }
}

#[test]
fn integer_literal() {
    let t = lex("42").unwrap();
    assert_eq!(kinds(&t), vec![TokenKind::IntegerLiteral]);
    assert_eq!(literal(&t[0]), "42");
    assert_eq!((t[0].span.start, t[0].span.end), (0, 2));
}

#[test]
fn float_literal() {
    let t = lex("3.14").unwrap();
    assert_eq!(kinds(&t), vec![TokenKind::FloatLiteral]);
    assert_eq!(literal(&t[0]), "3.14");
}

#[test]
fn hexadecimal_literal() {
    let t = lex("0x1f").unwrap();
    assert_eq!(kinds(&t), vec![TokenKind::HexadecimalLiteral]);
    assert_eq!(literal(&t[0]), "1f");
    assert_eq!((t[0].span.start, t[0].span.end), (0, 4));
}

#[test]
fn hexadecimal_digits_are_lowercase_only() {
    let t = lex("0x1F").unwrap();
    assert_eq!(kinds(&t), vec![TokenKind::HexadecimalLiteral, TokenKind::Identifier]);
    assert_eq!(literal(&t[0]), "1");
    assert_eq!(literal(&t[1]), "F");
}

#[test]
fn binary_literal() {
    let t = lex("0b101").unwrap();
    assert_eq!(kinds(&t), vec![TokenKind::BinaryLiteral]);
    assert_eq!(literal(&t[0]), "101");
}

#[test]
fn leading_zero_is_decimal() {
    let t = lex("007").unwrap();
    assert_eq!(kinds(&t), vec![TokenKind::IntegerLiteral]);
    assert_eq!(literal(&t[0]), "007");
}

#[test]
fn keywords_types_and_identifiers() {
    let t = lex("fn i32 foo_1 namespace self try null comptime Bar").unwrap();
    assert_eq!(
        kinds(&t),
        vec![
            TokenKind::Fn,
            TokenKind::I32,
            TokenKind::Identifier,
            TokenKind::Namespace,
            TokenKind::SelfKeyword,
            TokenKind::Try,
            TokenKind::Null,
            TokenKind::Comptime,
            TokenKind::Identifier,
        ]
    );
    assert_eq!(literal(&t[0]), "fn");
    assert_eq!(literal(&t[2]), "foo_1");
    assert_eq!((t[2].span.start, t[2].span.end), (7, 12));
}

#[test]
fn compound_operators() {
    let t = lex(":: := : ... .. . == = -> -= - != ! >= > <= < += *= /= %= + * / %").unwrap();
    assert_eq!(
        kinds(&t),
        vec![
            TokenKind::DoubleColon,
            TokenKind::ColonEquals,
            TokenKind::Colon,
            TokenKind::Elipsis,
            TokenKind::DoubleDot,
            TokenKind::Dot,
            TokenKind::EqualEqual,
            TokenKind::Equal,
            TokenKind::Arrow,
            TokenKind::MinusEquals,
            TokenKind::Minus,
            TokenKind::BangEqual,
            TokenKind::Bang,
            TokenKind::GreaterEqual,
            TokenKind::Greater,
            TokenKind::LessEqual,
            TokenKind::Less,
            TokenKind::PlusEquals,
            TokenKind::AsteriskEquals,
            TokenKind::SlashEquals,
            TokenKind::PercentEquals,
            TokenKind::Plus,
            TokenKind::Asterisk,
            TokenKind::Slash,
            TokenKind::Percent,
        ]
    );
    assert!(t.iter().all(|tok| tok.literal.is_none()));
}

#[test]
fn single_character_punctuation() {
    let t = lex("()[]{},;&$?").unwrap();
    assert_eq!(
        kinds(&t),
        vec![
            TokenKind::OpenParenthesis,
            TokenKind::CloseParenthesis,
            TokenKind::OpenBracket,
            TokenKind::CloseBracket,
            TokenKind::OpenBrace,
            TokenKind::CloseBrace,
            TokenKind::Comma,
            TokenKind::Semicolon,
            TokenKind::Ampersand,
            TokenKind::Dollar,
            TokenKind::QuestionMark,
        ]
    );
}

#[test]
fn newline_is_a_token() {
    let t = lex("a\nb").unwrap();
    assert_eq!(kinds(&t), vec![TokenKind::Identifier, TokenKind::Newline, TokenKind::Identifier]);
    assert_eq!((t[1].span.start, t[1].span.end), (1, 2));
    assert_eq!((t[2].span.start, t[2].span.end), (2, 3));
}

#[test]
fn whitespace_only_gives_no_tokens() {
    assert!(lex(" \t\r ").unwrap().is_empty());
    assert!(lex("").unwrap().is_empty());
}

#[test]
fn string_literal_is_raw() {
    let t = lex(r#"x "a\"b\q""#).unwrap();
    assert_eq!(kinds(&t), vec![TokenKind::Identifier, TokenKind::StringLiteral]);
    assert_eq!(literal(&t[1]), r#"a\"b\q"#);
    assert_eq!((t[1].span.start, t[1].span.end), (2, 10));
}

#[test]
fn char_literal_escapes_are_decoded() {
    let t = lex(r"'a' '\n' '\'' '\0'").unwrap();
    assert_eq!(kinds(&t), vec![TokenKind::CharLiteral; 4]);
    assert_eq!(literal(&t[0]), "a");
    assert_eq!(literal(&t[1]), "\n");
    assert_eq!(literal(&t[2]), "'");
    assert_eq!(literal(&t[3]), "\0");
    assert_eq!((t[1].span.start, t[1].span.end), (4, 8));
}

#[test]
fn invalid_escape_is_reported() {
    let e = lex(r"'\q' x").unwrap_err();
    assert_eq!(e.len(), 1);
    assert_eq!(message(&e[0]), r"invalid escape sequence: '\q'");
    assert_eq!((e[0].span().start, e[0].span().end), (1, 3));
}

#[test]
fn unexpected_characters_are_all_reported() {
    let e = lex("a @ b #").unwrap_err();
    assert_eq!(e.len(), 2);
    assert_eq!(message(&e[0]), "Unexpected character: '@'");
    assert_eq!(message(&e[1]), "Unexpected character: '#'");
    assert_eq!((e[1].span().start, e[1].span().end), (6, 7));
    assert_eq!(e[0].span().filename, "test.bl");
}

#[test]
fn unterminated_literals_are_reported() {
    let e = lex("\"abc").unwrap_err();
    assert_eq!(message(&e[0]), "unterminated string literal");
    let e = lex("'ab'").unwrap_err();
    assert_eq!(message(&e[0]), "unterminated character literal");
}

#[test]
fn relexing_a_token_span_gives_its_literal() {
    let src = r#"name := 0x1f + 3.25 * "s\"t" - 'c' + ident_9 0b11 fn"#;
    let chars: Vec<char> = src.chars().collect();
    let tokens = lex(src).unwrap();
    for t in tokens.iter().filter(|t| t.literal.is_some()) {
        let text: String = chars[t.span.start..t.span.end].iter().collect();
        let again = lex(&text).unwrap();
        assert_eq!(again.len(), 1, "re-lexing {:?}", text);
        assert_eq!(again[0].kind, t.kind);
        assert_eq!(again[0].literal, t.literal);
    }
}
