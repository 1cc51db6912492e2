use blaze::ast::{EnumVariant, Expression, Statement, Type};
use blaze::error::BlazeError;
use blaze::lexer::Lexer;
use blaze::parser::Parser;
use blaze::token::TokenKind;

fn parse(src: &str) -> Result<Vec<Statement>, Vec<BlazeError>> {
    let tokens = Lexer::new("test.bl".to_string(), src.to_string()).lex().unwrap();
    Parser::new(tokens).parse()
}

fn parse_one(src: &str) -> Statement {
    let mut statements = parse(src).unwrap();
    assert_eq!(statements.len(), 1);
    statements.remove(0)
}

fn parse_message(src: &str) -> String {
    let errors = parse(src).unwrap_err();
    assert_eq!(errors.len(), 1);
    match &errors[0] {
        BlazeError::ParseError(m, _) => m.clone(),
        other => panic!("not a parse error: {:?}", other),
    }
}

#[test]
fn typed_variable_declaration() {
    match parse_one("x : i32 = 5;") {
        Statement::VariableDeclaration(name, Type::I32(_), Expression::Integer(5, _), _) => {
            assert_eq!(name, "x")
        },
        other => panic!("{:?}", other),
    }
}

#[test]
fn inferred_variable_declaration() {
    match parse_one("x := 5;") {
        Statement::VariableDeclaration(name, Type::AwaitingInference, Expression::Integer(5, _), _) => {
            assert_eq!(name, "x")
        },
        other => panic!("{:?}", other),
    }
}

#[test]
fn constant_declaration() {
    match parse_one("x :: 5;") {
        Statement::ConstantDeclaration(name, Type::AwaitingInference, Expression::Integer(5, _), _) => {
            assert_eq!(name, "x")
        },
        other => panic!("{:?}", other),
    }
}

#[test]
fn mutable_declarations() {
    match parse_one("mut y := 1;") {
        Statement::MutableDeclaration(name, Type::AwaitingInference, _, _) => assert_eq!(name, "y"),
        other => panic!("{:?}", other),
    }
    match parse_one("mut y: *u8 = 1;") {
        Statement::MutableDeclaration(name, Type::Pointer(inner, _), _, _) => {
            assert_eq!(name, "y");
            assert!(matches!(*inner, Type::U8(_)));
        },
        other => panic!("{:?}", other),
    }
}

#[test]
fn struct_declaration_keeps_field_order() {
    match parse_one("Point :: struct { a: i32, b: bool }") {
        Statement::Struct(name, generics, fields, _) => {
            assert_eq!(name, "Point");
            assert!(generics.is_empty());
            assert_eq!(fields.len(), 2);
            assert_eq!(fields[0].name, "a");
            assert!(matches!(fields[0].ty, Type::I32(_)));
            assert_eq!(fields[1].name, "b");
            assert!(matches!(fields[1].ty, Type::Bool(_)));
        },
        other => panic!("{:?}", other),
    }
}

#[test]
fn function_declaration() {
    match parse_one("add :: fn(a: i32, b: i32) -> i32 { return a + b; }") {
        Statement::Function(name, parameters, return_types, body, _) => {
            assert_eq!(name, "add");
            assert_eq!(parameters.len(), 2);
            assert_eq!(parameters[0].0, "a");
            assert!(matches!(parameters[0].1, Type::I32(_)));
            assert_eq!(parameters[1].0, "b");
            assert!(matches!(parameters[1].1, Type::I32(_)));
            assert_eq!(return_types.len(), 1);
            assert!(matches!(return_types[0], Type::I32(_)));
            assert_eq!(body.len(), 1);
            match &body[0] {
                Statement::Return(values, _) => {
                    assert_eq!(values.len(), 1);
                    assert!(matches!(values[0], Expression::BinaryOperation(_, TokenKind::Plus, _, _)));
                },
                other => panic!("{:?}", other),
            }
        },
        other => panic!("{:?}", other),
    }
}

#[test]
fn function_without_arrow_returns_void() {
    match parse_one("f :: fn() { }") {
        Statement::Function(_, parameters, return_types, body, _) => {
            assert!(parameters.is_empty());
            assert_eq!(return_types.len(), 1);
            assert!(matches!(return_types[0], Type::Void(_)));
            assert!(body.is_empty());
        },
        other => panic!("{:?}", other),
    }
}

#[test]
fn method_and_variadic_parameters() {
    match parse_one("show :: fn(self: *Point, comptime fmt: *char, rest: ...) { }") {
        Statement::StructFunction(receiver, name, parameters, _, _, _) => {
            assert_eq!(name, "show");
            assert!(matches!(receiver, Type::Pointer(_, _)));
            assert_eq!(parameters.len(), 2);
            assert!(parameters[0].2);
            assert!(matches!(parameters[1].1, Type::VarArgs(_, _)));
        },
        other => panic!("{:?}", other),
    }
}

#[test]
fn enums_and_unions() {
    match parse_one("Color :: enum { Red, Green }") {
        Statement::Enum(name, variants, _) => {
            assert_eq!(name, "Color");
            assert_eq!(variants.len(), 2);
            assert!(matches!(&variants[1], EnumVariant::Unit(v, _) if v == "Green"));
        },
        other => panic!("{:?}", other),
    }
    match parse_one("Code :: enum(u8) { Ok = 0, Bad = 1 }") {
        Statement::TypedEnum(_, Type::U8(_), variants, _) => {
            assert!(matches!(&variants[1], EnumVariant::Expression(v, Expression::Integer(1, _), _) if v == "Bad"));
        },
        other => panic!("{:?}", other),
    }
    match parse_one("Number :: union { i32, f64 }") {
        Statement::Union(_, types, _) => assert_eq!(types.len(), 2),
        other => panic!("{:?}", other),
    }
}

#[test]
fn enum_value_needs_backing_type() {
    assert_eq!(
        parse_message("Color :: enum { Red = 1 }"),
        "cannot assign value to enum variant without inner type"
    );
}

#[test]
fn namespace_import_while_if() {
    let statements = parse(
        "std :: import \"std.bl\";\nmath :: namespace { pi :: 3; }\nwhile x > 0 { x -= 1; }\nif x == 1 { y; } else { z; }",
    )
    .unwrap();
    assert_eq!(statements.len(), 4);
    assert!(matches!(&statements[0], Statement::Import(n, p, _) if n == "std" && p == "std.bl"));
    assert!(matches!(&statements[1], Statement::Namespace(n, body, _) if n == "math" && body.len() == 1));
    assert!(matches!(&statements[2], Statement::While(_, body, _) if body.len() == 1));
    assert!(matches!(&statements[3], Statement::If(_, a, b, _) if a.len() == 1 && b.len() == 1));
}

#[test]
fn member_access_nests_to_the_right() {
    match parse_one("a.b.c;") {
        Statement::Expression(Expression::MemberAccess(left, right, _), _) => {
            assert!(matches!(*left, Expression::Identifier(ref n, _) if n == "a"));
            assert!(matches!(*right, Expression::MemberAccess(_, _, _)));
        },
        other => panic!("{:?}", other),
    }
    assert!(matches!(
        parse_one("f := io::print;"),
        Statement::VariableDeclaration(_, _, Expression::StaticMemberAccess(_, _, _), _)
    ));
}

#[test]
fn binary_operators_nest_to_the_right() {
    match parse_one("1 * 2 + 3;") {
        Statement::Expression(Expression::BinaryOperation(left, TokenKind::Asterisk, right, _), _) => {
            assert!(matches!(*left, Expression::Integer(1, _)));
            assert!(matches!(*right, Expression::BinaryOperation(_, TokenKind::Plus, _, _)));
        },
        other => panic!("{:?}", other),
    }
}

#[test]
fn primary_expressions() {
    match parse_one("p := Point { x: 1, 2 };") {
        Statement::VariableDeclaration(_, _, Expression::StructLiteral(name, fields, _), _) => {
            assert_eq!(name, "Point");
            assert_eq!(fields.len(), 2);
            assert_eq!(fields[0].0.as_deref(), Some("x"));
            assert!(fields[1].0.is_none());
        },
        other => panic!("{:?}", other),
    }
    assert!(matches!(parse_one("xs[0];"), Statement::Expression(Expression::ArrayAccess(_, _, _), _)));
    assert!(matches!(parse_one("&x;"), Statement::Expression(Expression::AddressOf(_, _), _)));
    assert!(matches!(parse_one("*x;"), Statement::Expression(Expression::Dereference(_, _), _)));
    assert!(matches!(parse_one("'c';"), Statement::Expression(Expression::Char('c', _), _)));
    assert!(matches!(parse_one("\"s\";"), Statement::Expression(Expression::String(_, _), _)));
    assert!(matches!(parse_one("self;"), Statement::Expression(Expression::SelfLiteral(_), _)));
    assert!(matches!(parse_one("null;"), Statement::Expression(Expression::Null(_), _)));
    assert!(matches!(parse_one("try f;"), Statement::Expression(Expression::Try(_, _), _)));
}

#[test]
fn types() {
    match parse_one("x : []?$T = y;") {
        Statement::VariableDeclaration(_, Type::Array(inner, _), _, _) => match *inner {
            Type::Optional(g, _) => assert!(matches!(*g, Type::Generic(ref n, _) if n == "T")),
            other => panic!("{:?}", other),
        },
        other => panic!("{:?}", other),
    }
    match parse_one("x : Foo = y;") {
        Statement::VariableDeclaration(_, Type::Unknown(n, _), _, _) => assert_eq!(n, "Foo"),
        other => panic!("{:?}", other),
    }
}

#[test]
fn first_error_ends_parsing() {
    let errors = parse("x := ; y := 2; z := ;").unwrap_err();
    assert_eq!(errors.len(), 1);
    assert!(matches!(&errors[0], BlazeError::ParseError(m, _) if m.starts_with("expected expression")));
}

#[test]
fn missing_token_and_end_of_file() {
    assert_eq!(parse_message("x := 1"), "unexpected end of file");
    assert_eq!(
        parse_message("x : i32 5;"),
        "unexpected token: IntegerLiteral, expected: Equal"
    );
}

#[test]
fn integer_out_of_range() {
    assert_eq!(parse_message("x := 99999999999999999999;"), "integer literal out of range");
}

#[test]
fn parsing_twice_gives_the_same_tree() {
    let src = "add :: fn(a: i32, b: i32) -> i32 { return a + b; }";
    let first = format!("{:?}", parse(src).unwrap());
    let second = format!("{:?}", parse(src).unwrap());
    assert_eq!(first, second);
}

#[test]
fn variadic_function_with_two_return_types() {
    match parse_one("f :: fn(a: i32, rest: ...) -> i32, bool {}") {
        Statement::Function(name, parameters, return_types, body, _) => {
            assert_eq!(name, "f");
            assert_eq!(parameters.len(), 2);
            assert!(matches!(parameters[0].1, Type::I32(_)));
            assert!(!parameters[0].2);
            assert!(matches!(&parameters[1].1, Type::VarArgs(inner, _) if inner.is_none()));
            assert_eq!(return_types.len(), 2);
            assert!(matches!(return_types[0], Type::I32(_)));
            assert!(matches!(return_types[1], Type::Bool(_)));
            assert!(body.is_empty());
        },
        other => panic!("{:?}", other),
    }
}

#[test]
fn receiver_makes_a_bound_function() {
    match parse_one("m :: fn(self: Point, comptime n: i32) {}") {
        Statement::StructFunction(receiver, name, parameters, _, body, _) => {
            assert!(matches!(receiver, Type::Unknown(ref n, _) if n == "Point"));
            assert_eq!(name, "m");
            assert_eq!(parameters.len(), 1);
            assert_eq!(parameters[0].0, "n");
            assert!(parameters[0].2);
            assert!(body.is_empty());
        },
        other => panic!("{:?}", other),
    }
}

#[test]
fn typed_enum_keeps_variants_in_order() {
    match parse_one("E :: enum(u8) { A = 1, B }") {
        Statement::TypedEnum(name, Type::U8(_), variants, _) => {
            assert_eq!(name, "E");
            assert_eq!(variants.len(), 2);
            assert!(matches!(&variants[0], EnumVariant::Expression(v, Expression::Integer(1, _), _) if v == "A"));
            assert!(matches!(&variants[1], EnumVariant::Unit(v, _) if v == "B"));
        },
        other => panic!("{:?}", other),
    }
}

#[test]
fn enum_value_error_points_at_the_variant() {
    let errors = parse("E :: enum { A = 1 }").unwrap_err();
    assert_eq!(errors.len(), 1);
    match &errors[0] {
        BlazeError::ParseError(m, span) => {
            assert_eq!(m, "cannot assign value to enum variant without inner type");
            assert_eq!((span.start, span.end), (12, 13));
        },
        other => panic!("{:?}", other),
    }
}
