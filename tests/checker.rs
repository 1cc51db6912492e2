use blaze::ast::{Expression, Statement, Type};
use blaze::compiler::Compiler;
use blaze::error::BlazeError;
use blaze::lexer::Lexer;
use blaze::parser::Parser;
use blaze::scope::Scope;
use blaze::span::Span;
use blaze::typechecker::Typechecker;

fn span(start: usize, end: usize) -> Span {
    Span { filename: "test.bl".to_string(), start, end }
}

fn program(src: &str) -> Vec<Statement> {
    let tokens = Lexer::new("test.bl".to_string(), src.to_string()).lex().unwrap();
    Parser::new(tokens).parse().unwrap()
}

fn check(src: &str) -> (Typechecker, Result<(), Vec<BlazeError>>) {
    let mut checker = Typechecker::new(program(src));
    let result = checker.typecheck();
    (checker, result)
}

fn messages(errors: &[BlazeError]) -> Vec<String> {
    errors
        .iter()
        .map(|e| match e {
            BlazeError::TypeError(m, _) => m.clone(),
            other => panic!("not a type error: {:?}", other),
        })
        .collect()
}

#[test]
fn function_end_to_end() {
    let src = "add :: fn(a: i32, b: i32) -> i32 { return a + b; }";
    let tokens = Lexer::new("test.bl".to_string(), src.to_string()).lex().unwrap();
    let statements = Parser::new(tokens).parse().unwrap();
    assert_eq!(statements.len(), 1);
    match &statements[0] {
        Statement::Function(name, parameters, return_types, _, _) => {
            assert_eq!(name, "add");
            assert!(parameters.iter().all(|p| matches!(p.1, Type::I32(_))));
            assert_eq!(parameters.len(), 2);
            assert_eq!(return_types.len(), 1);
            assert!(matches!(return_types[0], Type::I32(_)));
        },
        other => panic!("{:?}", other),
    }
    let mut checker = Typechecker::new(statements);
    assert!(checker.typecheck().is_ok());
    assert!(checker.errors.is_empty());
}

#[test]
fn unknown_parameter_type() {
    let (_, result) = check("f :: fn(x: Foo) { }");
    let errors = result.unwrap_err();
    assert_eq!(messages(&errors), vec!["unknown type 'Foo'".to_string()]);
    assert_eq!((errors[0].span().start, errors[0].span().end), (11, 14));
}

#[test]
fn declared_struct_resolves() {
    let (checker, result) = check("Point :: struct { a: i32, b: bool }");
    assert!(result.is_ok());
    let found = checker.current_scope.get_type("Point".to_string(), span(0, 5));
    assert!(matches!(found, Some(Type::Struct(ref n, _)) if n == "Point"));
    assert!(checker.current_scope.get_type("Other".to_string(), span(0, 5)).is_none());
    let (checker, _) = check("Pair :: struct { a: i32, b: bool }");
    assert!(matches!(
        checker.current_scope.get_type("Pair".to_string(), span(0, 4)),
        Some(Type::Struct(ref n, _)) if n == "Pair"
    ));
}

#[test]
fn struct_parameter_type_resolves() {
    let (_, result) = check("Point :: struct { a: i32 }\nf :: fn(p: *Point) { }");
    assert!(result.is_ok());
}

#[test]
fn recursive_struct_terminates() {
    let (_, result) = check("Node :: struct { next: *Node, value: i32 }\nn : Node = Node { next: null, value: 1 };");
    assert!(result.is_ok());
}

#[test]
fn errors_are_collected() {
    let (_, result) = check("a : Foo = 1;\nb : Bar = 2;\nc := Baz { x: 1 };\nd := xs[0];");
    assert_eq!(
        messages(&result.unwrap_err()),
        vec![
            "unknown type 'Foo'".to_string(),
            "unknown type 'Bar'".to_string(),
            "unknown struct 'Baz'".to_string(),
            "unknown identifier 'xs'".to_string(),
        ]
    );
}

#[test]
fn field_types_are_resolved() {
    let (_, result) = check("S :: struct { a: Missing }\nU :: union { i32, Gone }");
    assert_eq!(
        messages(&result.unwrap_err()),
        vec!["unknown type 'Missing'".to_string(), "unknown type 'Gone'".to_string()]
    );
}

#[test]
fn block_declarations_stay_in_their_block() {
    let (_, result) = check("f :: fn() { Inner :: struct { a: i32 } }\ng : Inner = 1;");
    assert_eq!(messages(&result.unwrap_err()), vec!["unknown type 'Inner'".to_string()]);
}

#[test]
fn inner_mutable_shadows_outer_constant() {
    let mut outer = Scope::new(None);
    outer.consts.push(("x".to_string(), (Type::I32(span(0, 1)), Expression::Integer(1, span(5, 6)))));
    let mut inner = Scope::new(Some(outer));
    inner.mutables.push(("x".to_string(), (Type::Bool(span(20, 21)), Expression::Identifier("t".to_string(), span(25, 26)))));
    let (ty, e) = inner.locate("x".to_string(), span(30, 31)).unwrap();
    assert!(matches!(ty, Type::Bool(_)));
    assert!(matches!(e, Expression::Identifier(ref n, _) if n == "t"));
    let outer = (*inner.parent).unwrap();
    let sibling = Scope::new(Some(outer));
    let (ty, e) = sibling.locate("x".to_string(), span(40, 41)).unwrap();
    assert!(matches!(ty, Type::I32(_)));
    assert!(matches!(e, Expression::Integer(1, _)));
}

#[test]
fn locate_finds_parameters_and_misses() {
    let mut scope = Scope::new(None);
    scope.parameters.push(("p".to_string(), (Type::U8(span(0, 1)), span(0, 1))));
    let (ty, e) = scope.locate("p".to_string(), span(9, 10)).unwrap();
    assert!(matches!(ty, Type::U8(_)));
    assert!(matches!(e, Expression::Identifier(ref n, ref s) if n == "p" && s.start == 9));
    assert!(scope.locate("q".to_string(), span(0, 1)).is_none());
}

#[test]
fn later_declaration_wins() {
    let mut scope = Scope::new(None);
    scope.consts.push(("x".to_string(), (Type::I8(span(0, 1)), Expression::Integer(1, span(0, 1)))));
    scope.consts.push(("x".to_string(), (Type::I16(span(0, 1)), Expression::Integer(2, span(0, 1)))));
    let (ty, _) = scope.locate("x".to_string(), span(0, 1)).unwrap();
    assert!(matches!(ty, Type::I16(_)));
}

#[test]
fn compile_source_collects_diagnostics() {
    let mut compiler = Compiler::new();
    compiler.add_file("a.bl".to_string());
    assert_eq!(compiler.files, vec!["a.bl".to_string()]);
    let ok = compiler.compile_source("a.bl".to_string(), "x :: 1;".to_string());
    assert_eq!(ok.map(|s| s.len()), Some(1));
    assert!(compiler.errors.is_empty());
    assert!(compiler.compile_source("b.bl".to_string(), "x := @;".to_string()).is_none());
    assert!(compiler.compile_source("c.bl".to_string(), "x := ;".to_string()).is_none());
    assert!(compiler.compile_source("d.bl".to_string(), "x : Foo = 1;".to_string()).is_none());
    assert_eq!(compiler.errors.len(), 3);
    assert!(matches!(compiler.errors[0], BlazeError::SyntaxError(_, _)));
    assert!(matches!(compiler.errors[1], BlazeError::ParseError(_, _)));
    assert!(matches!(compiler.errors[2], BlazeError::TypeError(_, _)));
}
