use vstd::prelude::*;
use crate::span::Span;
use crate::token::TokenKind;

verus! {

/// A statement of the source language; every arm carries its span.
#[derive(Debug)]
pub enum Statement {
    ConstantDeclaration(String, Type, Expression, Span),
    VariableDeclaration(String, Type, Expression, Span),
    MutableDeclaration(String, Type, Expression, Span),
    Namespace(String, Vec<Statement>, Span),
    Import(String, String, Span),
    /// Name, generic-parameter placeholders (always empty for now), fields.
    Struct(String, Vec<String>, Vec<StructField>, Span),
    Enum(String, Vec<EnumVariant>, Span),
    TypedEnum(String, Type, Vec<EnumVariant>, Span),
    Union(String, Vec<Type>, Span),
    /// Name, parameters (name, type, comptime, span), return types, body.
    Function(String, Vec<(String, Type, bool, Span)>, Vec<Type>, Vec<Statement>, Span),
    /// Receiver type, name, parameters, return types, body.
    StructFunction(Type, String, Vec<(String, Type, bool, Span)>, Vec<Type>, Vec<Statement>, Span),
    Return(Vec<Expression>, Span),
    While(Expression, Vec<Statement>, Span),
    If(Expression, Vec<Statement>, Vec<Statement>, Span),
    Expression(Expression, Span),
}

/// An expression of the source language; every arm carries its span.
#[derive(Debug)]
pub enum Expression {
    SelfLiteral(Span),
    Identifier(String, Span),
    Integer(i64, Span),
    Char(char, Span),
    String(String, Span),
    StaticMemberAccess(Box<Expression>, Box<Expression>, Span),
    MemberAccess(Box<Expression>, Box<Expression>, Span),
    BinaryOperation(Box<Expression>, TokenKind, Box<Expression>, Span),
    ArrayAccess(String, Box<Expression>, Span),
    StructLiteral(String, Vec<(Option<String>, Expression, Span)>, Span),
    AddressOf(Box<Expression>, Span),
    Dereference(Box<Expression>, Span),
    Try(Box<Expression>, Span),
    Null(Span),
}

/// A type annotation; `AwaitingInference` marks a binding whose type is not known yet.
#[derive(Debug)]
pub enum Type {
    I8(Span),
    I16(Span),
    I32(Span),
    I64(Span),
    U8(Span),
    U16(Span),
    U32(Span),
    U64(Span),
    F32(Span),
    F64(Span),
    Char(Span),
    Bool(Span),
    Void(Span),
    Array(Box<Type>, Span),
    Pointer(Box<Type>, Span),
    Optional(Box<Type>, Span),
    VarArgs(Box<Option<Type>>, Span),
    Generic(String, Span),
    Unknown(String, Span),
    Struct(String, Span),
    Enum(String, Span),
    Union(String, Span),
    AwaitingInference,
}

/// A named, typed field of a struct definition.
#[derive(Debug)]
pub struct StructField {
    pub name: String,
    pub ty: Type,
    pub span: Span,
}

/// A variant of an enum definition, with or without an assigned value.
#[derive(Debug)]
pub enum EnumVariant {
    Unit(String, Span),
    Expression(String, Expression, Span),
}

/// The span of a statement.
pub open spec fn statement_span(s: Statement) -> Span {
    match s {
        Statement::ConstantDeclaration(_, _, _, sp) => sp,
        Statement::VariableDeclaration(_, _, _, sp) => sp,
        Statement::MutableDeclaration(_, _, _, sp) => sp,
        Statement::Namespace(_, _, sp) => sp,
        Statement::Import(_, _, sp) => sp,
        Statement::Struct(_, _, _, sp) => sp,
        Statement::Enum(_, _, sp) => sp,
        Statement::TypedEnum(_, _, _, sp) => sp,
        Statement::Union(_, _, sp) => sp,
        Statement::Function(_, _, _, _, sp) => sp,
        Statement::StructFunction(_, _, _, _, _, sp) => sp,
        Statement::Return(_, sp) => sp,
        Statement::While(_, _, sp) => sp,
        Statement::If(_, _, _, sp) => sp,
        Statement::Expression(_, sp) => sp,
    }
}

/// The span of an expression.
pub open spec fn expression_span(e: Expression) -> Span {
    match e {
        Expression::SelfLiteral(sp) => sp,
        Expression::Identifier(_, sp) => sp,
        Expression::Integer(_, sp) => sp,
        Expression::Char(_, sp) => sp,
        Expression::String(_, sp) => sp,
        Expression::StaticMemberAccess(_, _, sp) => sp,
        Expression::MemberAccess(_, _, sp) => sp,
        Expression::BinaryOperation(_, _, _, sp) => sp,
        Expression::ArrayAccess(_, _, sp) => sp,
        Expression::StructLiteral(_, _, sp) => sp,
        Expression::AddressOf(_, sp) => sp,
        Expression::Dereference(_, sp) => sp,
        Expression::Try(_, sp) => sp,
        Expression::Null(sp) => sp,
    }
}

/// The span of a type; the inference placeholder has none.
pub open spec fn type_span(t: Type) -> Span
    recommends
        !(t is AwaitingInference),
{
    match t {
        Type::I8(sp) => sp,
        Type::I16(sp) => sp,
        Type::I32(sp) => sp,
        Type::I64(sp) => sp,
        Type::U8(sp) => sp,
        Type::U16(sp) => sp,
        Type::U32(sp) => sp,
        Type::U64(sp) => sp,
        Type::F32(sp) => sp,
        Type::F64(sp) => sp,
        Type::Char(sp) => sp,
        Type::Bool(sp) => sp,
        Type::Void(sp) => sp,
        Type::Array(_, sp) => sp,
        Type::Pointer(_, sp) => sp,
        Type::Optional(_, sp) => sp,
        Type::VarArgs(_, sp) => sp,
        Type::Generic(_, sp) => sp,
        Type::Unknown(_, sp) => sp,
        Type::Struct(_, sp) => sp,
        Type::Enum(_, sp) => sp,
        Type::Union(_, sp) => sp,
        Type::AwaitingInference => arbitrary(),
    }
}

/// True when the type, and every type nested in it, is not the inference placeholder.
pub open spec fn is_concrete(t: Type) -> bool
    decreases t,
{
    match t {
        Type::AwaitingInference => false,
        Type::Array(inner, _) => is_concrete(*inner),
        Type::Pointer(inner, _) => is_concrete(*inner),
        Type::Optional(inner, _) => is_concrete(*inner),
        Type::VarArgs(inner, _) => match *inner {
            Some(i) => is_concrete(i),
            None => true,
        },
        _ => true,
    }
}

/// The printable name of a type: `i32`, `i32[]`, `i32*`, `i32?`, `...i32`, `$T`,
/// `unknown T`, `struct T`, `enum T`, `union T`.
pub open spec fn printable_name(t: Type) -> Seq<char>
    recommends
        is_concrete(t),
    decreases t,
{
    match t {
        Type::I8(_) => "i8"@,
        Type::I16(_) => "i16"@,
        Type::I32(_) => "i32"@,
        Type::I64(_) => "i64"@,
        Type::U8(_) => "u8"@,
        Type::U16(_) => "u16"@,
        Type::U32(_) => "u32"@,
        Type::U64(_) => "u64"@,
        Type::F32(_) => "f32"@,
        Type::F64(_) => "f64"@,
        Type::Char(_) => "char"@,
        Type::Bool(_) => "bool"@,
        Type::Void(_) => "void"@,
        Type::Array(inner, _) => printable_name(*inner) + "[]"@,
        Type::Pointer(inner, _) => printable_name(*inner) + "*"@,
        Type::Optional(inner, _) => printable_name(*inner) + "?"@,
        Type::VarArgs(inner, _) => match *inner {
            Some(i) => "..."@ + printable_name(i),
            None => "..."@,
        },
        Type::Generic(n, _) => "$"@ + n@,
        Type::Unknown(n, _) => "unknown "@ + n@,
        Type::Struct(n, _) => "struct "@ + n@,
        Type::Enum(n, _) => "enum "@ + n@,
        Type::Union(n, _) => "union "@ + n@,
        Type::AwaitingInference => Seq::empty(),
    }
}

/// Equality of types as far as it is meaningful today: primitives by kind, wrappers by
/// their element, unresolved names by name. Nominal, generic, var-args and placeholder
/// types never compare equal.
pub open spec fn type_equals(a: Type, b: Type) -> bool
    decreases a,
{
    match a {
        Type::I8(_) => b is I8,
        Type::I16(_) => b is I16,
        Type::I32(_) => b is I32,
        Type::I64(_) => b is I64,
        Type::U8(_) => b is U8,
        Type::U16(_) => b is U16,
        Type::U32(_) => b is U32,
        Type::U64(_) => b is U64,
        Type::F32(_) => b is F32,
        Type::F64(_) => b is F64,
        Type::Char(_) => b is Char,
        Type::Bool(_) => b is Bool,
        Type::Void(_) => b is Void,
        Type::Array(x, _) => match b {
            Type::Array(y, _) => type_equals(*x, *y),
            _ => false,
        },
        Type::Pointer(x, _) => match b {
            Type::Pointer(y, _) => type_equals(*x, *y),
            _ => false,
        },
        Type::Optional(x, _) => match b {
            Type::Optional(y, _) => type_equals(*x, *y),
            _ => false,
        },
        Type::Unknown(n, _) => match b {
            Type::Unknown(m, _) => n@ == m@,
            _ => false,
        },
        _ => false,
    }
}

/// The type an expression evidently has, where one can be read off its shape:
/// identifiers and struct literals name an unresolved type, integers are `i64`,
/// characters `char`, strings `char*`; member access takes the member's type;
/// `&e` points to the type of `e`; `*e` needs `e` to be a pointer.
pub open spec fn expression_type(e: Expression) -> Option<Type>
    decreases e,
{
    match e {
        Expression::Identifier(n, sp) => Some(Type::Unknown(n, sp)),
        Expression::Integer(_, sp) => Some(Type::I64(sp)),
        Expression::Char(_, sp) => Some(Type::Char(sp)),
        Expression::String(_, sp) => Some(Type::Pointer(Box::new(Type::Char(sp)), sp)),
        Expression::StaticMemberAccess(_, m, _) => expression_type(*m),
        Expression::MemberAccess(_, m, _) => expression_type(*m),
        Expression::StructLiteral(n, _, sp) => Some(Type::Unknown(n, sp)),
        Expression::AddressOf(inner, sp) => match expression_type(*inner) {
            Some(t) => Some(Type::Pointer(Box::new(t), sp)),
            None => None,
        },
        Expression::Dereference(inner, _) => match expression_type(*inner) {
            Some(Type::Pointer(t, _)) => Some(*t),
            _ => None,
        },
        _ => None,
    }
}

/// Two expressions with the same structure and contents.
pub open spec fn same_expression(a: Expression, b: Expression) -> bool
    decreases a,
{
    match a {
        Expression::StaticMemberAccess(x, y, sp) => match b {
            Expression::StaticMemberAccess(x2, y2, sp2) => same_expression(*x, *x2)
                && same_expression(*y, *y2) && sp == sp2,
            _ => false,
        },
        Expression::MemberAccess(x, y, sp) => match b {
            Expression::MemberAccess(x2, y2, sp2) => same_expression(*x, *x2) && same_expression(
                *y,
                *y2,
            ) && sp == sp2,
            _ => false,
        },
        Expression::BinaryOperation(x, op, y, sp) => match b {
            Expression::BinaryOperation(x2, op2, y2, sp2) => same_expression(*x, *x2) && op
                == op2 && same_expression(*y, *y2) && sp == sp2,
            _ => false,
        },
        Expression::ArrayAccess(n, x, sp) => match b {
            Expression::ArrayAccess(n2, x2, sp2) => n == n2 && same_expression(*x, *x2) && sp
                == sp2,
            _ => false,
        },
        Expression::StructLiteral(n, fs, sp) => match b {
            Expression::StructLiteral(n2, fs2, sp2) => n == n2 && sp == sp2 && fs@.len()
                == fs2@.len() && forall|i: int|
                0 <= i < fs@.len() ==> {
                    &&& (#[trigger] fs@[i]).0 == fs2@[i].0
                    &&& fs@[i].2 == fs2@[i].2
                    &&& same_expression(fs@[i].1, fs2@[i].1)
                },
            _ => false,
        },
        Expression::AddressOf(x, sp) => match b {
            Expression::AddressOf(x2, sp2) => same_expression(*x, *x2) && sp == sp2,
            _ => false,
        },
        Expression::Dereference(x, sp) => match b {
            Expression::Dereference(x2, sp2) => same_expression(*x, *x2) && sp == sp2,
            _ => false,
        },
        Expression::Try(x, sp) => match b {
            Expression::Try(x2, sp2) => same_expression(*x, *x2) && sp == sp2,
            _ => false,
        },
        _ => a == b,
    }
}

impl Statement {
    /// The span of this statement.
    pub fn span(&self) -> (r: Span)
        ensures
            r == statement_span(*self),
    {
        match self {
            Statement::ConstantDeclaration(_, _, _, s) => s.duplicate(),
            Statement::VariableDeclaration(_, _, _, s) => s.duplicate(),
            Statement::MutableDeclaration(_, _, _, s) => s.duplicate(),
            Statement::Namespace(_, _, s) => s.duplicate(),
            Statement::Import(_, _, s) => s.duplicate(),
            Statement::Struct(_, _, _, s) => s.duplicate(),
            Statement::Enum(_, _, s) => s.duplicate(),
            Statement::TypedEnum(_, _, _, s) => s.duplicate(),
            Statement::Union(_, _, s) => s.duplicate(),
            Statement::Function(_, _, _, _, s) => s.duplicate(),
            Statement::StructFunction(_, _, _, _, _, s) => s.duplicate(),
            Statement::Return(_, s) => s.duplicate(),
            Statement::While(_, _, s) => s.duplicate(),
            Statement::If(_, _, _, s) => s.duplicate(),
            Statement::Expression(_, s) => s.duplicate(),
        }
    }
}

impl Expression {
    /// The span of this expression.
    pub fn span(&self) -> (r: Span)
        ensures
            r == expression_span(*self),
    {
        match self {
            Expression::SelfLiteral(s) => s.duplicate(),
            Expression::Identifier(_, s) => s.duplicate(),
            Expression::Integer(_, s) => s.duplicate(),
            Expression::Char(_, s) => s.duplicate(),
            Expression::String(_, s) => s.duplicate(),
            Expression::StaticMemberAccess(_, _, s) => s.duplicate(),
            Expression::MemberAccess(_, _, s) => s.duplicate(),
            Expression::BinaryOperation(_, _, _, s) => s.duplicate(),
            Expression::ArrayAccess(_, _, s) => s.duplicate(),
            Expression::StructLiteral(_, _, s) => s.duplicate(),
            Expression::AddressOf(_, s) => s.duplicate(),
            Expression::Dereference(_, s) => s.duplicate(),
            Expression::Try(_, s) => s.duplicate(),
            Expression::Null(s) => s.duplicate(),
        }
    }

    /// The type this expression evidently has (see `expression_type`); only defined
    /// where one can be read off the expression's shape.
    pub fn get_type(&self) -> (r: Type)
        requires
            expression_type(*self) is Some,
        ensures
            r == expression_type(*self)->0,
        decreases self,
    {
        match self {
            Expression::Identifier(n, s) => Type::Unknown(n.clone(), s.duplicate()),
            Expression::Integer(_, s) => Type::I64(s.duplicate()),
            Expression::Char(_, s) => Type::Char(s.duplicate()),
            Expression::String(_, s) => Type::Pointer(Box::new(Type::Char(s.duplicate())), s.duplicate()),
            Expression::StaticMemberAccess(_, m, _) => m.get_type(),
            Expression::MemberAccess(_, m, _) => m.get_type(),
            Expression::StructLiteral(n, _, s) => Type::Unknown(n.clone(), s.duplicate()),
            Expression::AddressOf(inner, s) => Type::Pointer(Box::new(inner.get_type()), s.duplicate()),
            Expression::Dereference(inner, _) => {
                let t = inner.get_type();
                match t {
                    Type::Pointer(p, _) => *p,
                    _ => {
                        proof {
                            assert(false);
                        }
                        t
                    },
                }
            },
            _ => {
                proof {
                    assert(false);
                }
                Type::AwaitingInference
            },
        }
    }

    /// A structural copy of this expression.
    pub fn duplicate(&self) -> (r: Expression)
        ensures
            same_expression(r, *self),
        decreases self,
    {
        match self {
            Expression::SelfLiteral(s) => Expression::SelfLiteral(s.duplicate()),
            Expression::Identifier(n, s) => Expression::Identifier(n.clone(), s.duplicate()),
            Expression::Integer(v, s) => Expression::Integer(*v, s.duplicate()),
            Expression::Char(c, s) => Expression::Char(*c, s.duplicate()),
            Expression::String(v, s) => Expression::String(v.clone(), s.duplicate()),
            Expression::StaticMemberAccess(x, y, s) => Expression::StaticMemberAccess(
                Box::new(x.duplicate()),
                Box::new(y.duplicate()),
                s.duplicate(),
            ),
            Expression::MemberAccess(x, y, s) => Expression::MemberAccess(
                Box::new(x.duplicate()),
                Box::new(y.duplicate()),
                s.duplicate(),
            ),
            Expression::BinaryOperation(x, op, y, s) => Expression::BinaryOperation(
                Box::new(x.duplicate()),
                *op,
                Box::new(y.duplicate()),
                s.duplicate(),
            ),
            Expression::ArrayAccess(n, x, s) => Expression::ArrayAccess(
                n.clone(),
                Box::new(x.duplicate()),
                s.duplicate(),
            ),
            Expression::StructLiteral(n, fs, s) => {
                let mut out: Vec<(Option<String>, Expression, Span)> = Vec::new();
                let mut i: usize = 0;
                while i < fs.len()
                    invariant
                        *self is StructLiteral,
                        *fs == (*self)->StructLiteral_1,
                        i <= fs@.len(),
                        out@.len() == i,
                        forall|j: int|
                            0 <= j < i ==> {
                                &&& (#[trigger] out@[j]).0 == fs@[j].0
                                &&& out@[j].2 == fs@[j].2
                                &&& same_expression(out@[j].1, fs@[j].1)
                            },
                    decreases fs@.len() - i,
                {
                    let f = &fs[i];
                    proof {
                        assert(decreases_to!(fs => fs[i as int]));
                        assert(decreases_to!(fs[i as int] => fs[i as int].1));
                    }
                    let name = match &f.0 {
                        Some(v) => Some(v.clone()),
                        None => None,
                    };
                    out.push((name, f.1.duplicate(), f.2.duplicate()));
                    i = i + 1;
                }
                Expression::StructLiteral(n.clone(), out, s.duplicate())
            },
            Expression::AddressOf(x, s) => Expression::AddressOf(
                Box::new(x.duplicate()),
                s.duplicate(),
            ),
            Expression::Dereference(x, s) => Expression::Dereference(
                Box::new(x.duplicate()),
                s.duplicate(),
            ),
            Expression::Try(x, s) => Expression::Try(Box::new(x.duplicate()), s.duplicate()),
            Expression::Null(s) => Expression::Null(s.duplicate()),
        }
    }
}

impl Type {
    /// The span of this type.
    pub fn span(&self) -> (r: Span)
        requires
            !(*self is AwaitingInference),
        ensures
            r == type_span(*self),
    {
        match self {
            Type::I8(s) => s.duplicate(),
            Type::I16(s) => s.duplicate(),
            Type::I32(s) => s.duplicate(),
            Type::I64(s) => s.duplicate(),
            Type::U8(s) => s.duplicate(),
            Type::U16(s) => s.duplicate(),
            Type::U32(s) => s.duplicate(),
            Type::U64(s) => s.duplicate(),
            Type::F32(s) => s.duplicate(),
            Type::F64(s) => s.duplicate(),
            Type::Char(s) => s.duplicate(),
            Type::Bool(s) => s.duplicate(),
            Type::Void(s) => s.duplicate(),
            Type::Array(_, s) => s.duplicate(),
            Type::Pointer(_, s) => s.duplicate(),
            Type::Optional(_, s) => s.duplicate(),
            Type::VarArgs(_, s) => s.duplicate(),
            Type::Generic(_, s) => s.duplicate(),
            Type::Unknown(_, s) => s.duplicate(),
            Type::Struct(_, s) => s.duplicate(),
            Type::Enum(_, s) => s.duplicate(),
            Type::Union(_, s) => s.duplicate(),
            Type::AwaitingInference => {
                proof {
                    assert(false);
                }
                Span { filename: String::new(), start: 0, end: 0 }
            },
        }
    }

    /// The printable name of this type (see `printable_name`).
    pub fn name(&self) -> (r: String)
        requires
            is_concrete(*self),
        ensures
            r@ == printable_name(*self),
        decreases self,
    {
        match self {
            Type::I8(_) => String::from_str("i8"),
            Type::I16(_) => String::from_str("i16"),
            Type::I32(_) => String::from_str("i32"),
            Type::I64(_) => String::from_str("i64"),
            Type::U8(_) => String::from_str("u8"),
            Type::U16(_) => String::from_str("u16"),
            Type::U32(_) => String::from_str("u32"),
            Type::U64(_) => String::from_str("u64"),
            Type::F32(_) => String::from_str("f32"),
            Type::F64(_) => String::from_str("f64"),
            Type::Char(_) => String::from_str("char"),
            Type::Bool(_) => String::from_str("bool"),
            Type::Void(_) => String::from_str("void"),
            Type::Array(t, _) => t.name().concat("[]"),
            Type::Pointer(t, _) => t.name().concat("*"),
            Type::Optional(t, _) => t.name().concat("?"),
            Type::VarArgs(t, _) => match &**t {
                Some(inner) => String::from_str("...").concat(inner.name().as_str()),
                None => String::from_str("..."),
            },
            Type::Generic(n, _) => String::from_str("$").concat(n.as_str()),
            Type::Unknown(n, _) => String::from_str("unknown ").concat(n.as_str()),
            Type::Struct(n, _) => String::from_str("struct ").concat(n.as_str()),
            Type::Enum(n, _) => String::from_str("enum ").concat(n.as_str()),
            Type::Union(n, _) => String::from_str("union ").concat(n.as_str()),
            Type::AwaitingInference => {
                proof {
                    assert(false);
                }
                String::new()
            },
        }
    }

    /// Compares two types (see `type_equals`).
    pub fn equals(&self, other: Type) -> (r: bool)
        ensures
            r == type_equals(*self, other),
        decreases self,
    {
        match self {
            Type::I8(_) => matches!(other, Type::I8(_)),
            Type::I16(_) => matches!(other, Type::I16(_)),
            Type::I32(_) => matches!(other, Type::I32(_)),
            Type::I64(_) => matches!(other, Type::I64(_)),
            Type::U8(_) => matches!(other, Type::U8(_)),
            Type::U16(_) => matches!(other, Type::U16(_)),
            Type::U32(_) => matches!(other, Type::U32(_)),
            Type::U64(_) => matches!(other, Type::U64(_)),
            Type::F32(_) => matches!(other, Type::F32(_)),
            Type::F64(_) => matches!(other, Type::F64(_)),
            Type::Char(_) => matches!(other, Type::Char(_)),
            Type::Bool(_) => matches!(other, Type::Bool(_)),
            Type::Void(_) => matches!(other, Type::Void(_)),
            Type::Array(t, _) => match other {
                Type::Array(o, _) => t.equals(*o),
                _ => false,
            },
            Type::Pointer(t, _) => match other {
                Type::Pointer(o, _) => t.equals(*o),
                _ => false,
            },
            Type::Optional(t, _) => match other {
                Type::Optional(o, _) => t.equals(*o),
                _ => false,
            },
            Type::Unknown(n, _) => match other {
                Type::Unknown(m, _) => *n == m,
                _ => false,
            },
            _ => false,
        }
    }

    /// A copy of this type.
    pub fn duplicate(&self) -> (r: Type)
        ensures
            r == *self,
        decreases self,
    {
        match self {
            Type::I8(s) => Type::I8(s.duplicate()),
            Type::I16(s) => Type::I16(s.duplicate()),
            Type::I32(s) => Type::I32(s.duplicate()),
            Type::I64(s) => Type::I64(s.duplicate()),
            Type::U8(s) => Type::U8(s.duplicate()),
            Type::U16(s) => Type::U16(s.duplicate()),
            Type::U32(s) => Type::U32(s.duplicate()),
            Type::U64(s) => Type::U64(s.duplicate()),
            Type::F32(s) => Type::F32(s.duplicate()),
            Type::F64(s) => Type::F64(s.duplicate()),
            Type::Char(s) => Type::Char(s.duplicate()),
            Type::Bool(s) => Type::Bool(s.duplicate()),
            Type::Void(s) => Type::Void(s.duplicate()),
            Type::Array(t, s) => Type::Array(Box::new(t.duplicate()), s.duplicate()),
            Type::Pointer(t, s) => Type::Pointer(Box::new(t.duplicate()), s.duplicate()),
            Type::Optional(t, s) => Type::Optional(Box::new(t.duplicate()), s.duplicate()),
            Type::VarArgs(t, s) => {
                let inner = match &**t {
                    Some(i) => Some(i.duplicate()),
                    None => None,
                };
                Type::VarArgs(Box::new(inner), s.duplicate())
            },
            Type::Generic(n, s) => Type::Generic(n.clone(), s.duplicate()),
            Type::Unknown(n, s) => Type::Unknown(n.clone(), s.duplicate()),
            Type::Struct(n, s) => Type::Struct(n.clone(), s.duplicate()),
            Type::Enum(n, s) => Type::Enum(n.clone(), s.duplicate()),
            Type::Union(n, s) => Type::Union(n.clone(), s.duplicate()),
            Type::AwaitingInference => Type::AwaitingInference,
        }
    }
}

/// Copies of a list of types.
pub fn duplicate_types(v: &Vec<Type>) -> (r: Vec<Type>)
    ensures
        r@ == v@,
{
    let mut out: Vec<Type> = Vec::new();
    let mut i: usize = 0;
    while i < v.len()
        invariant
            i <= v@.len(),
            out@ == v@.subrange(0, i as int),
        decreases v@.len() - i,
    {
        out.push(v[i].duplicate());
        i = i + 1;
        proof {
            assert(out@ =~= v@.subrange(0, i as int));
        }
    }
    proof {
        assert(out@ =~= v@);
    }
    out
}

/// Copies of a list of struct fields.
pub fn duplicate_fields(v: &Vec<StructField>) -> (r: Vec<StructField>)
    ensures
        r@ == v@,
{
    let mut out: Vec<StructField> = Vec::new();
    let mut i: usize = 0;
    while i < v.len()
        invariant
            i <= v@.len(),
            out@ == v@.subrange(0, i as int),
        decreases v@.len() - i,
    {
        let f = &v[i];
        out.push(StructField { name: f.name.clone(), ty: f.ty.duplicate(), span: f.span.duplicate() });
        i = i + 1;
        proof {
            assert(out@ =~= v@.subrange(0, i as int));
        }
    }
    proof {
        assert(out@ =~= v@);
    }
    out
}

/// Copies of a list of enum variants; values are copied structurally.
pub fn duplicate_variants(v: &Vec<EnumVariant>) -> (r: Vec<EnumVariant>)
    ensures
        r@.len() == v@.len(),
        forall|i: int| 0 <= i < v@.len() ==> same_variant(#[trigger] r@[i], v@[i]),
{
    let mut out: Vec<EnumVariant> = Vec::new();
    let mut i: usize = 0;
    while i < v.len()
        invariant
            i <= v@.len(),
            out@.len() == i,
            forall|j: int| 0 <= j < i ==> same_variant(#[trigger] out@[j], v@[j]),
        decreases v@.len() - i,
    {
        let copy = match &v[i] {
            EnumVariant::Unit(n, s) => EnumVariant::Unit(n.clone(), s.duplicate()),
            EnumVariant::Expression(n, e, s) => EnumVariant::Expression(n.clone(), e.duplicate(), s.duplicate()),
        };
        out.push(copy);
        i = i + 1;
    }
    out
}

/// Two enum variants with the same name, span and (structurally) the same value.
pub open spec fn same_variant(a: EnumVariant, b: EnumVariant) -> bool {
    match (a, b) {
        (EnumVariant::Unit(n, s), EnumVariant::Unit(m, t)) => n == m && s == t,
        (EnumVariant::Expression(n, x, s), EnumVariant::Expression(m, y, t)) => n == m && s == t
            && same_expression(x, y),
        _ => false,
    }
}

/// Copies of the parameters of a function: name, type, `comptime` flag, span.
pub fn duplicate_parameters(v: &Vec<(String, Type, bool, Span)>) -> (r: Vec<(String, Type, bool, Span)>)
    ensures
        r@ == v@,
{
    let mut out: Vec<(String, Type, bool, Span)> = Vec::new();
    let mut i: usize = 0;
    while i < v.len()
        invariant
            i <= v@.len(),
            out@ == v@.subrange(0, i as int),
        decreases v@.len() - i,
    {
        let p = &v[i];
        out.push((p.0.clone(), p.1.duplicate(), p.2, p.3.duplicate()));
        i = i + 1;
        proof {
            assert(out@ =~= v@.subrange(0, i as int));
        }
    }
    proof {
        assert(out@ =~= v@);
    }
    out
}

/// Copies of a list of expressions.
pub fn duplicate_expressions(v: &Vec<Expression>) -> (r: Vec<Expression>)
    ensures
        r@.len() == v@.len(),
        forall|i: int| 0 <= i < v@.len() ==> same_expression(#[trigger] r@[i], v@[i]),
{
    let mut out: Vec<Expression> = Vec::new();
    let mut i: usize = 0;
    while i < v.len()
        invariant
            i <= v@.len(),
            out@.len() == i,
            forall|j: int| 0 <= j < i ==> same_expression(#[trigger] out@[j], v@[j]),
        decreases v@.len() - i,
    {
        out.push(v[i].duplicate());
        i = i + 1;
    }
    out
}

/// Copies of a list of statements.
pub fn duplicate_statements(v: &Vec<Statement>) -> (r: Vec<Statement>)
    ensures
        r@.len() == v@.len(),
        forall|i: int| 0 <= i < v@.len() ==> statement_span(#[trigger] r@[i]) == statement_span(v@[i]),
    decreases v,
{
    let mut out: Vec<Statement> = Vec::new();
    let mut i: usize = 0;
    while i < v.len()
        invariant
            i <= v@.len(),
            out@.len() == i,
            forall|j: int| 0 <= j < i ==> statement_span(#[trigger] out@[j]) == statement_span(v@[j]),
        decreases v@.len() - i,
    {
        proof {
            assert(decreases_to!(v => v[i as int]));
        }
        out.push(v[i].duplicate());
        i = i + 1;
    }
    out
}

impl Statement {
    /// A copy of this statement, with the same span.
    pub fn duplicate(&self) -> (r: Statement)
        ensures
            statement_span(r) == statement_span(*self),
        decreases self,
    {
        match self {
            Statement::ConstantDeclaration(n, t, e, s) => Statement::ConstantDeclaration(n.clone(), t.duplicate(), e.duplicate(), s.duplicate()),
            Statement::VariableDeclaration(n, t, e, s) => Statement::VariableDeclaration(n.clone(), t.duplicate(), e.duplicate(), s.duplicate()),
            Statement::MutableDeclaration(n, t, e, s) => Statement::MutableDeclaration(n.clone(), t.duplicate(), e.duplicate(), s.duplicate()),
            Statement::Namespace(n, b, s) => Statement::Namespace(n.clone(), duplicate_statements(b), s.duplicate()),
            Statement::Import(n, path, s) => Statement::Import(n.clone(), path.clone(), s.duplicate()),
            Statement::Struct(n, g, f, s) => {
                let mut generics: Vec<String> = Vec::new();
                let mut i: usize = 0;
                while i < g.len()
                    decreases g@.len() - i,
                {
                    generics.push(g[i].clone());
                    i = i + 1;
                }
                Statement::Struct(n.clone(), generics, duplicate_fields(f), s.duplicate())
            },
            Statement::Enum(n, v, s) => Statement::Enum(n.clone(), duplicate_variants(v), s.duplicate()),
            Statement::TypedEnum(n, t, v, s) => Statement::TypedEnum(n.clone(), t.duplicate(), duplicate_variants(v), s.duplicate()),
            Statement::Union(n, t, s) => Statement::Union(n.clone(), duplicate_types(t), s.duplicate()),
            Statement::Function(n, p, r, b, s) => Statement::Function(n.clone(), duplicate_parameters(p), duplicate_types(r), duplicate_statements(b), s.duplicate()),
            Statement::StructFunction(t, n, p, r, b, s) => Statement::StructFunction(t.duplicate(), n.clone(), duplicate_parameters(p), duplicate_types(r), duplicate_statements(b), s.duplicate()),
            Statement::Return(es, s) => Statement::Return(duplicate_expressions(es), s.duplicate()),
            Statement::While(c, b, s) => Statement::While(c.duplicate(), duplicate_statements(b), s.duplicate()),
            Statement::If(c, a, b, s) => Statement::If(c.duplicate(), duplicate_statements(a), duplicate_statements(b), s.duplicate()),
            Statement::Expression(e, s) => Statement::Expression(e.duplicate(), s.duplicate()),
        }
    }
}


/// An expression as a value: its lists are sequences.
pub enum ExprModel {
    SelfLiteral(Span),
    Identifier(String, Span),
    Integer(i64, Span),
    Char(char, Span),
    String(String, Span),
    StaticMemberAccess(Box<ExprModel>, Box<ExprModel>, Span),
    MemberAccess(Box<ExprModel>, Box<ExprModel>, Span),
    BinaryOperation(Box<ExprModel>, TokenKind, Box<ExprModel>, Span),
    ArrayAccess(String, Box<ExprModel>, Span),
    StructLiteral(String, Seq<(Option<String>, ExprModel, Span)>, Span),
    AddressOf(Box<ExprModel>, Span),
    Dereference(Box<ExprModel>, Span),
    Try(Box<ExprModel>, Span),
    Null(Span),
}

/// An enum variant as a value.
pub enum VariantModel {
    Unit(String, Span),
    Expression(String, ExprModel, Span),
}

/// A statement as a value: its lists are sequences.
pub enum StmtModel {
    ConstantDeclaration(String, Type, ExprModel, Span),
    VariableDeclaration(String, Type, ExprModel, Span),
    MutableDeclaration(String, Type, ExprModel, Span),
    Namespace(String, Seq<StmtModel>, Span),
    Import(String, String, Span),
    Struct(String, Seq<String>, Seq<StructField>, Span),
    Enum(String, Seq<VariantModel>, Span),
    TypedEnum(String, Type, Seq<VariantModel>, Span),
    Union(String, Seq<Type>, Span),
    Function(String, Seq<(String, Type, bool, Span)>, Seq<Type>, Seq<StmtModel>, Span),
    StructFunction(Type, String, Seq<(String, Type, bool, Span)>, Seq<Type>, Seq<StmtModel>, Span),
    Return(Seq<ExprModel>, Span),
    While(ExprModel, Seq<StmtModel>, Span),
    If(ExprModel, Seq<StmtModel>, Seq<StmtModel>, Span),
    Expression(ExprModel, Span),
}

/// The value of an expression.
pub open spec fn expr_model(e: Expression) -> ExprModel
    decreases e,
{
    match e {
        Expression::SelfLiteral(s) => ExprModel::SelfLiteral(s),
        Expression::Identifier(n, s) => ExprModel::Identifier(n, s),
        Expression::Integer(v, s) => ExprModel::Integer(v, s),
        Expression::Char(c, s) => ExprModel::Char(c, s),
        Expression::String(v, s) => ExprModel::String(v, s),
        Expression::StaticMemberAccess(a, b, s) => ExprModel::StaticMemberAccess(
            Box::new(expr_model(*a)),
            Box::new(expr_model(*b)),
            s,
        ),
        Expression::MemberAccess(a, b, s) => ExprModel::MemberAccess(
            Box::new(expr_model(*a)),
            Box::new(expr_model(*b)),
            s,
        ),
        Expression::BinaryOperation(a, op, b, s) => ExprModel::BinaryOperation(
            Box::new(expr_model(*a)),
            op,
            Box::new(expr_model(*b)),
            s,
        ),
        Expression::ArrayAccess(n, i, s) => ExprModel::ArrayAccess(n, Box::new(expr_model(*i)), s),
        Expression::StructLiteral(n, fs, s) => ExprModel::StructLiteral(
            n,
            Seq::new(
                fs@.len(),
                |i: int|
                    if 0 <= i < fs@.len() {
                        (fs@[i].0, expr_model(fs@[i].1), fs@[i].2)
                    } else {
                        (None, ExprModel::Null(s), s)
                    },
            ),
            s,
        ),
        Expression::AddressOf(x, s) => ExprModel::AddressOf(Box::new(expr_model(*x)), s),
        Expression::Dereference(x, s) => ExprModel::Dereference(Box::new(expr_model(*x)), s),
        Expression::Try(x, s) => ExprModel::Try(Box::new(expr_model(*x)), s),
        Expression::Null(s) => ExprModel::Null(s),
    }
}

/// The values of a list of expressions.
pub open spec fn exprs_model(es: Seq<Expression>) -> Seq<ExprModel> {
    Seq::new(es.len(), |i: int| expr_model(es[i]))
}

/// The value of an enum variant.
pub open spec fn variant_model(v: EnumVariant) -> VariantModel {
    match v {
        EnumVariant::Unit(n, s) => VariantModel::Unit(n, s),
        EnumVariant::Expression(n, e, s) => VariantModel::Expression(n, expr_model(e), s),
    }
}

/// The values of a list of enum variants.
pub open spec fn variants_model(vs: Seq<EnumVariant>) -> Seq<VariantModel> {
    Seq::new(vs.len(), |i: int| variant_model(vs[i]))
}

/// The value of a statement.
pub open spec fn stmt_model(st: Statement) -> StmtModel
    decreases st,
{
    match st {
        Statement::ConstantDeclaration(n, t, e, s) => StmtModel::ConstantDeclaration(n, t, expr_model(e), s),
        Statement::VariableDeclaration(n, t, e, s) => StmtModel::VariableDeclaration(n, t, expr_model(e), s),
        Statement::MutableDeclaration(n, t, e, s) => StmtModel::MutableDeclaration(n, t, expr_model(e), s),
        Statement::Namespace(n, b, s) => StmtModel::Namespace(
            n,
            Seq::new(b@.len(), |i: int| if 0 <= i < b@.len() { stmt_model(b@[i]) } else { StmtModel::Return(seq![], s) }),
            s,
        ),
        Statement::Import(n, p, s) => StmtModel::Import(n, p, s),
        Statement::Struct(n, g, f, s) => StmtModel::Struct(n, g@, f@, s),
        Statement::Enum(n, v, s) => StmtModel::Enum(n, variants_model(v@), s),
        Statement::TypedEnum(n, t, v, s) => StmtModel::TypedEnum(n, t, variants_model(v@), s),
        Statement::Union(n, t, s) => StmtModel::Union(n, t@, s),
        Statement::Function(n, p, r, b, s) => StmtModel::Function(
            n,
            p@,
            r@,
            Seq::new(b@.len(), |i: int| if 0 <= i < b@.len() { stmt_model(b@[i]) } else { StmtModel::Return(seq![], s) }),
            s,
        ),
        Statement::StructFunction(t, n, p, r, b, s) => StmtModel::StructFunction(
            t,
            n,
            p@,
            r@,
            Seq::new(b@.len(), |i: int| if 0 <= i < b@.len() { stmt_model(b@[i]) } else { StmtModel::Return(seq![], s) }),
            s,
        ),
        Statement::Return(es, s) => StmtModel::Return(exprs_model(es@), s),
        Statement::While(c, b, s) => StmtModel::While(
            expr_model(c),
            Seq::new(b@.len(), |i: int| if 0 <= i < b@.len() { stmt_model(b@[i]) } else { StmtModel::Return(seq![], s) }),
            s,
        ),
        Statement::If(c, a, b, s) => StmtModel::If(
            expr_model(c),
            Seq::new(a@.len(), |i: int| if 0 <= i < a@.len() { stmt_model(a@[i]) } else { StmtModel::Return(seq![], s) }),
            Seq::new(b@.len(), |i: int| if 0 <= i < b@.len() { stmt_model(b@[i]) } else { StmtModel::Return(seq![], s) }),
            s,
        ),
        Statement::Expression(e, s) => StmtModel::Expression(expr_model(e), s),
    }
}

/// The values of a list of statements.
pub open spec fn stmts_model(ss: Seq<Statement>) -> Seq<StmtModel> {
    Seq::new(ss.len(), |i: int| stmt_model(ss[i]))
}


/// The value of a character expression.
pub proof fn lemma_char_model(c: char, s: Span)
    ensures
        expr_model(Expression::Char(c, s)) == ExprModel::Char(c, s),
{
}

} // verus!
