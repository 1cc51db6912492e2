use blaze::ast::{Expression, Statement, Type};
use blaze::error::BlazeError;
use blaze::span::Span;

fn span(start: usize, end: usize) -> Span {
    Span { filename: "f.bl".to_string(), start, end }
}

#[test]
fn type_names() {
    let t = Type::Array(Box::new(Type::Pointer(Box::new(Type::I32(span(0, 1))), span(0, 1))), span(0, 1));
    assert_eq!(t.name(), "i32*[]");
    assert_eq!(Type::Optional(Box::new(Type::Bool(span(0, 1))), span(0, 1)).name(), "bool?");
    assert_eq!(Type::VarArgs(Box::new(None), span(0, 1)).name(), "...");
    assert_eq!(Type::VarArgs(Box::new(Some(Type::U8(span(0, 1)))), span(0, 1)).name(), "...u8");
    assert_eq!(Type::Generic("T".to_string(), span(0, 1)).name(), "$T");
    assert_eq!(Type::Unknown("Foo".to_string(), span(0, 1)).name(), "unknown Foo");
    assert_eq!(Type::Struct("P".to_string(), span(0, 1)).name(), "struct P");
    assert_eq!(Type::Enum("E".to_string(), span(0, 1)).name(), "enum E");
    assert_eq!(Type::Union("U".to_string(), span(0, 1)).name(), "union U");
}

#[test]
fn type_equality_is_structural_where_defined() {
    let a = Type::Pointer(Box::new(Type::I32(span(0, 1))), span(0, 1));
    assert!(a.equals(Type::Pointer(Box::new(Type::I32(span(7, 9))), span(3, 4))));
    assert!(!a.equals(Type::Pointer(Box::new(Type::I64(span(0, 1))), span(0, 1))));
    assert!(Type::Unknown("A".to_string(), span(0, 1)).equals(Type::Unknown("A".to_string(), span(2, 3))));
    assert!(!Type::Unknown("A".to_string(), span(0, 1)).equals(Type::Unknown("B".to_string(), span(0, 1))));
    assert!(!Type::Struct("A".to_string(), span(0, 1)).equals(Type::Struct("A".to_string(), span(0, 1))));
    assert!(!Type::Generic("T".to_string(), span(0, 1)).equals(Type::Generic("T".to_string(), span(0, 1))));
}

#[test]
fn spans() {
    assert_eq!(Type::Bool(span(3, 7)).span().start, 3);
    assert_eq!(Expression::Null(span(4, 8)).span().end, 8);
    let s = Statement::Return(vec![], span(1, 2));
    assert_eq!((s.span().start, s.span().end), (1, 2));
}

#[test]
fn evident_expression_types() {
    assert!(matches!(Expression::Integer(1, span(0, 1)).get_type(), Type::I64(_)));
    assert!(matches!(Expression::Char('c', span(0, 1)).get_type(), Type::Char(_)));
    let s = Expression::String("hi".to_string(), span(0, 1)).get_type();
    assert_eq!(s.name(), "char*");
    let r = Expression::AddressOf(Box::new(Expression::Integer(1, span(0, 1))), span(0, 1)).get_type();
    assert_eq!(r.name(), "i64*");
    let d = Expression::Dereference(
        Box::new(Expression::String("x".to_string(), span(0, 1))),
        span(0, 1),
    )
    .get_type();
    assert!(matches!(d, Type::Char(_)));
    let m = Expression::MemberAccess(
        Box::new(Expression::Identifier("a".to_string(), span(0, 1))),
        Box::new(Expression::Identifier("b".to_string(), span(2, 3))),
        span(0, 3),
    )
    .get_type();
    assert!(matches!(m, Type::Unknown(ref n, _) if n == "b"));
}

#[test]
fn diagnostic_rendering() {
    let source = "x := 1;\ny : Foo = 2;\n".to_string();
    let e = BlazeError::TypeError("unknown type 'Foo'".to_string(), span(12, 15));
    let out = e.to_string(&source);
    let expected = "[f.bl:2:5] TypeError: unknown type 'Foo'\n\
                    \u{1b}[94m    2 | \u{1b}[39my : Foo = 2;\n\
                    \u{1b}[94m      | \u{1b}[39m\u{1b}[31m    ^^^- unknown type 'Foo'\u{1b}[39m\n";
    assert_eq!(out, expected);
}

#[test]
fn diagnostic_on_first_line() {
    let source = "@".to_string();
    let e = BlazeError::SyntaxError("Unexpected character: '@'".to_string(), span(0, 1));
    let out = e.to_string(&source);
    assert!(out.starts_with("[f.bl:1:1] SyntaxError: Unexpected character: '@'\n"));
    assert!(out.contains("    1 | \u{1b}[39m@\n"));
}
