use vstd::prelude::*;
use crate::ast::{
    EnumVariant, Expression, Statement, StructField, Type, duplicate_fields, duplicate_statements,
    duplicate_types, duplicate_variants, same_expression, same_variant,
};
use crate::error::BlazeError;
use crate::scope::{
    Scope, binding, enum_variants, last_index, struct_fields, type_named, union_members,
};
use crate::span::Span;

verus! {

/// A type error: its message and where it points.
pub type Report = (Seq<char>, Span);

/// `prefix` followed by `name` in single quotes.
pub open spec fn quoted(prefix: Seq<char>, name: Seq<char>) -> Seq<char> {
    prefix + name + "'"@
}

/// `e` is the type error `m`.
pub open spec fn is_report(e: BlazeError, m: Report) -> bool {
    match e {
        BlazeError::TypeError(msg, sp) => msg@ == m.0 && sp == m.1,
        _ => false,
    }
}

/// `after` is `before` followed by the type errors `ms`.
pub open spec fn appended(before: Seq<BlazeError>, after: Seq<BlazeError>, ms: Seq<Report>) -> bool {
    &&& after.len() == before.len() + ms.len()
    &&& forall|i: int| 0 <= i < before.len() ==> after[i] == before[i]
    &&& forall|i: int|
        before.len() <= i < after.len() ==> is_report(#[trigger] after[i], ms[i - before.len()])
}

/// `after` is `before` followed by type errors only.
pub open spec fn only_type_errors(before: Seq<BlazeError>, after: Seq<BlazeError>) -> bool {
    &&& before.len() <= after.len()
    &&& forall|i: int| 0 <= i < before.len() ==> after[i] == before[i]
    &&& forall|i: int| before.len() <= i < after.len() ==> (#[trigger] after[i]) is TypeError
}

/// The expression that stands in measures of functions that recurse on types only.
pub open spec fn no_expression() -> Expression {
    Expression::Null(arbitrary())
}

pub open spec fn level(expand: bool) -> nat {
    if expand {
        1
    } else {
        0
    }
}

/// A measure of a type that drops on each element type, and from a name to what it resolves to.
pub open spec fn type_size(t: Type) -> nat
    decreases t,
{
    match t {
        Type::Array(i, _) => 1 + type_size(*i),
        Type::Pointer(i, _) => 1 + type_size(*i),
        Type::Optional(i, _) => 1 + type_size(*i),
        Type::VarArgs(i, _) => match *i {
            Some(x) => 1 + type_size(x),
            None => 1,
        },
        Type::Unknown(_, _) => 2,
        _ => 1,
    }
}

/// The type errors of resolving `t` in scope `s`. Primitives, generic placeholders and the
/// inference placeholder resolve; element types are resolved in turn; a bare name must name a
/// declared struct, enum or union; a reference to one must be declared, and with `expand`
/// its field types, variant values or member types are resolved one level down (a
/// reference met there is only looked up, so recursive declarations terminate).
pub open spec fn type_reports(s: Scope, t: Type, expand: bool) -> Seq<Report>
    decreases level(expand), 1nat, no_expression(), type_size(t), 0int,
{
    match t {
        Type::Array(i, _) => type_reports(s, *i, expand),
        Type::Pointer(i, _) => type_reports(s, *i, expand),
        Type::Optional(i, _) => type_reports(s, *i, expand),
        Type::VarArgs(i, _) => match *i {
            Some(x) => type_reports(s, x, expand),
            None => seq![],
        },
        Type::Unknown(n, sp) => match type_named(s, n, sp) {
            Some(Type::Struct(m, sp2)) => struct_reports(s, m, sp2, expand),
            Some(Type::Enum(m, sp2)) => enum_reports(s, m, sp2, expand),
            Some(Type::Union(m, sp2)) => union_reports(s, m, sp2, expand),
            Some(_) => seq![],
            None => seq![(quoted("unknown type '"@, n@), sp)],
        },
        Type::Struct(n, sp) => struct_reports(s, n, sp, expand),
        Type::Enum(n, sp) => enum_reports(s, n, sp, expand),
        Type::Union(n, sp) => union_reports(s, n, sp, expand),
        _ => seq![],
    }
}

pub open spec fn struct_reports(s: Scope, n: String, sp: Span, expand: bool) -> Seq<Report>
    decreases level(expand), 0nat, no_expression(), 0nat, 0int,
{
    match struct_fields(s, n@) {
        Some(fs) => if expand {
            field_reports(s, fs, fs.len() as int)
        } else {
            seq![]
        },
        None => seq![(quoted("unknown struct '"@, n@), sp)],
    }
}

pub open spec fn enum_reports(s: Scope, n: String, sp: Span, expand: bool) -> Seq<Report>
    decreases level(expand), 0nat, no_expression(), 0nat, 0int,
{
    match enum_variants(s, n@) {
        Some(vs) => if expand {
            variant_reports(s, vs, vs.len() as int)
        } else {
            seq![]
        },
        None => seq![(quoted("unknown enum '"@, n@), sp)],
    }
}

pub open spec fn union_reports(s: Scope, n: String, sp: Span, expand: bool) -> Seq<Report>
    decreases level(expand), 0nat, no_expression(), 0nat, 0int,
{
    match union_members(s, n@) {
        Some(ts) => if expand {
            member_reports(s, ts, ts.len() as int)
        } else {
            seq![]
        },
        None => seq![(quoted("unknown union '"@, n@), sp)],
    }
}

/// The type errors of the first `k` field types, looked up without expansion.
pub open spec fn field_reports(s: Scope, fs: Seq<StructField>, k: int) -> Seq<Report>
    decreases 0nat, 3nat, no_expression(), 0nat, k,
{
    if k <= 0 {
        seq![]
    } else {
        field_reports(s, fs, k - 1) + type_reports(s, fs[k - 1].ty, false)
    }
}

/// The type errors of the values of the first `k` variants, looked up without expansion.
pub open spec fn variant_reports(s: Scope, vs: Seq<EnumVariant>, k: int) -> Seq<Report>
    decreases 0nat, 3nat, no_expression(), 0nat, k,
{
    if k <= 0 {
        seq![]
    } else {
        variant_reports(s, vs, k - 1) + match vs[k - 1] {
            EnumVariant::Unit(_, _) => seq![],
            EnumVariant::Expression(_, e, _) => expression_reports(s, e, false),
        }
    }
}

/// The type errors of the first `k` member types, looked up without expansion.
pub open spec fn member_reports(s: Scope, ts: Seq<Type>, k: int) -> Seq<Report>
    decreases 0nat, 3nat, no_expression(), 0nat, k,
{
    if k <= 0 {
        seq![]
    } else {
        member_reports(s, ts, k - 1) + type_reports(s, ts[k - 1], false)
    }
}

/// The type errors of an expression: every subexpression is checked; a struct literal needs
/// its struct declared, and pairs its field types with its values; an array access needs its
/// name bound, and resolves the bound type.
pub open spec fn expression_reports(s: Scope, e: Expression, expand: bool) -> Seq<Report>
    decreases level(expand), 2nat, e, 2nat, 0int,
{
    match e {
        Expression::StructLiteral(n, vals, sp) => match struct_fields(s, n@) {
            Some(fs) => literal_reports(
                s,
                fs,
                e,
                if fs.len() < vals@.len() {
                    fs.len() as int
                } else {
                    vals@.len() as int
                },
                expand,
            ),
            None => seq![(quoted("unknown struct '"@, n@), sp)],
        },
        Expression::StaticMemberAccess(a, b, _) => expression_reports(s, *a, expand)
            + expression_reports(s, *b, expand),
        Expression::MemberAccess(a, b, _) => expression_reports(s, *a, expand) + expression_reports(
            s,
            *b,
            expand,
        ),
        Expression::BinaryOperation(a, _, b, _) => expression_reports(s, *a, expand)
            + expression_reports(s, *b, expand),
        Expression::ArrayAccess(n, idx, sp) => match binding(s, n, sp) {
            Some((t, _)) => type_reports(s, t, expand) + expression_reports(s, *idx, expand),
            None => seq![(quoted("unknown identifier '"@, n@), sp)],
        },
        Expression::AddressOf(x, _) => expression_reports(s, *x, expand),
        Expression::Dereference(x, _) => expression_reports(s, *x, expand),
        Expression::Try(x, _) => expression_reports(s, *x, expand),
        _ => seq![],
    }
}

/// The type errors of the first `k` (field type, value) pairs of a struct literal.
pub open spec fn literal_reports(
    s: Scope,
    fs: Seq<StructField>,
    literal: Expression,
    k: int,
    expand: bool,
) -> Seq<Report>
    decreases level(expand), 2nat, literal, 1nat, k,
{
    match literal {
        Expression::StructLiteral(_, vals, _) => if k <= 0 || k > vals@.len() {
            seq![]
        } else {
            literal_reports(s, fs, literal, k - 1, expand) + type_reports(s, fs[k - 1].ty, expand)
                + expression_reports(s, vals[k - 1].1, expand)
        },
        _ => seq![],
    }
}

proof fn lemma_appended_trans(
    a: Seq<BlazeError>,
    b: Seq<BlazeError>,
    c: Seq<BlazeError>,
    m1: Seq<Report>,
    m2: Seq<Report>,
)
    requires
        appended(a, b, m1),
        appended(b, c, m2),
    ensures
        appended(a, c, m1 + m2),
{
    assert forall|i: int| a.len() <= i < c.len() implies is_report(#[trigger] c[i], (m1 + m2)[i - a.len()]) by {
        if i < b.len() {
            assert(c[i] == b[i]);
        }
    }
}

proof fn lemma_appended_nothing(a: Seq<BlazeError>)
    ensures
        appended(a, a, seq![]),
{
}

/// Records the type error `prefix` + `name` + `'` at `span`.
fn report(errors: &mut Vec<BlazeError>, prefix: &str, name: &String, span: Span)
    ensures
        appended(old(errors)@, final(errors)@, seq![(quoted(prefix@, name@), span)]),
{
    let message = String::from_str(prefix).concat(name.as_str()).concat("'");
    errors.push(BlazeError::TypeError(message, span));
}

/// Resolves `ty` in `scope` (see `type_reports`), recording its errors.
fn check_type(scope: &Scope, ty: &Type, expand: bool, errors: &mut Vec<BlazeError>)
    ensures
        appended(old(errors)@, final(errors)@, type_reports(*scope, *ty, expand)),
    decreases level(expand), 1nat, no_expression(), type_size(*ty), 0int,
{
    match ty {
        Type::Array(i, _) => check_type(scope, i, expand, errors),
        Type::Pointer(i, _) => check_type(scope, i, expand, errors),
        Type::Optional(i, _) => check_type(scope, i, expand, errors),
        Type::VarArgs(i, _) => match &**i {
            Some(x) => check_type(scope, x, expand, errors),
            None => {
                proof {
                    lemma_appended_nothing(errors@);
                }
            },
        },
        Type::Unknown(n, sp) => match scope.get_type(n.clone(), sp.duplicate()) {
            Some(Type::Struct(m, sp2)) => check_struct(scope, &m, &sp2, expand, errors),
            Some(Type::Enum(m, sp2)) => check_enum(scope, &m, &sp2, expand, errors),
            Some(Type::Union(m, sp2)) => check_union(scope, &m, &sp2, expand, errors),
            Some(_) => {
                proof {
                    lemma_appended_nothing(errors@);
                }
            },
            None => report(errors, "unknown type '", n, sp.duplicate()),
        },
        Type::Struct(n, sp) => check_struct(scope, n, sp, expand, errors),
        Type::Enum(n, sp) => check_enum(scope, n, sp, expand, errors),
        Type::Union(n, sp) => check_union(scope, n, sp, expand, errors),
        _ => {
            proof {
                lemma_appended_nothing(errors@);
            }
        },
    }
}

fn check_struct(scope: &Scope, name: &String, span: &Span, expand: bool, errors: &mut Vec<BlazeError>)
    ensures
        appended(old(errors)@, final(errors)@, struct_reports(*scope, *name, *span, expand)),
    decreases level(expand), 0nat, no_expression(), 0nat, 0int,
{
    let ghost e0 = errors@;
    match scope.fields_of(name) {
        Some(fields) => {
            if expand {
                let mut i: usize = 0;
                proof {
                    lemma_appended_nothing(errors@);
                }
                while i < fields.len()
                    invariant
                        expand,
                        i <= fields@.len(),
                        struct_fields(*scope, name@) == Some(fields@),
                        appended(e0, errors@, field_reports(*scope, fields@, i as int)),
                    decreases fields@.len() - i,
                {
                    let ghost e1 = errors@;
                    check_type(scope, &fields[i].ty, false, errors);
                    proof {
                        lemma_appended_trans(
                            e0,
                            e1,
                            errors@,
                            field_reports(*scope, fields@, i as int),
                            type_reports(*scope, fields@[i as int].ty, false),
                        );
                    }
                    i = i + 1;
                }
            } else {
                proof {
                    lemma_appended_nothing(errors@);
                }
            }
        },
        None => report(errors, "unknown struct '", name, span.duplicate()),
    }
}

fn check_enum(scope: &Scope, name: &String, span: &Span, expand: bool, errors: &mut Vec<BlazeError>)
    ensures
        appended(old(errors)@, final(errors)@, enum_reports(*scope, *name, *span, expand)),
    decreases level(expand), 0nat, no_expression(), 0nat, 0int,
{
    let ghost e0 = errors@;
    match scope.variants_of(name) {
        Some(variants) => {
            if expand {
                let mut i: usize = 0;
                proof {
                    lemma_appended_nothing(errors@);
                }
                while i < variants.len()
                    invariant
                        expand,
                        i <= variants@.len(),
                        enum_variants(*scope, name@) == Some(variants@),
                        appended(e0, errors@, variant_reports(*scope, variants@, i as int)),
                    decreases variants@.len() - i,
                {
                    let ghost e1 = errors@;
                    match &variants[i] {
                        EnumVariant::Unit(_, _) => {
                            proof {
                                lemma_appended_nothing(errors@);
                            }
                        },
                        EnumVariant::Expression(_, e, _) => check_expression(scope, e, false, errors),
                    }
                    proof {
                        let step = match variants@[i as int] {
                            EnumVariant::Unit(_, _) => seq![],
                            EnumVariant::Expression(_, e, _) => expression_reports(*scope, e, false),
                        };
                        lemma_appended_trans(
                            e0,
                            e1,
                            errors@,
                            variant_reports(*scope, variants@, i as int),
                            step,
                        );
                    }
                    i = i + 1;
                }
            } else {
                proof {
                    lemma_appended_nothing(errors@);
                }
            }
        },
        None => report(errors, "unknown enum '", name, span.duplicate()),
    }
}

fn check_union(scope: &Scope, name: &String, span: &Span, expand: bool, errors: &mut Vec<BlazeError>)
    ensures
        appended(old(errors)@, final(errors)@, union_reports(*scope, *name, *span, expand)),
    decreases level(expand), 0nat, no_expression(), 0nat, 0int,
{
    let ghost e0 = errors@;
    match scope.members_of(name) {
        Some(types) => {
            if expand {
                let mut i: usize = 0;
                proof {
                    lemma_appended_nothing(errors@);
                }
                while i < types.len()
                    invariant
                        expand,
                        i <= types@.len(),
                        union_members(*scope, name@) == Some(types@),
                        appended(e0, errors@, member_reports(*scope, types@, i as int)),
                    decreases types@.len() - i,
                {
                    let ghost e1 = errors@;
                    check_type(scope, &types[i], false, errors);
                    proof {
                        lemma_appended_trans(
                            e0,
                            e1,
                            errors@,
                            member_reports(*scope, types@, i as int),
                            type_reports(*scope, types@[i as int], false),
                        );
                    }
                    i = i + 1;
                }
            } else {
                proof {
                    lemma_appended_nothing(errors@);
                }
            }
        },
        None => report(errors, "unknown union '", name, span.duplicate()),
    }
}

/// Checks two subexpressions in turn.
fn check_pair(scope: &Scope, a: &Expression, b: &Expression, expand: bool, errors: &mut Vec<BlazeError>, whole: Ghost<Expression>)
    requires
        decreases_to!(whole@ => *a),
        decreases_to!(whole@ => *b),
    ensures
        appended(
            old(errors)@,
            final(errors)@,
            expression_reports(*scope, *a, expand) + expression_reports(*scope, *b, expand),
        ),
    decreases level(expand), 2nat, whole@, 1nat, 0int,
{
    let ghost e0 = errors@;
    check_expression(scope, a, expand, errors);
    let ghost e1 = errors@;
    check_expression(scope, b, expand, errors);
    proof {
        lemma_appended_trans(
            e0,
            e1,
            errors@,
            expression_reports(*scope, *a, expand),
            expression_reports(*scope, *b, expand),
        );
    }
}

/// Checks an expression in `scope` (see `expression_reports`), recording its errors.
fn check_expression(scope: &Scope, e: &Expression, expand: bool, errors: &mut Vec<BlazeError>)
    ensures
        appended(old(errors)@, final(errors)@, expression_reports(*scope, *e, expand)),
    decreases level(expand), 2nat, *e, 2nat, 0int,
{
    let ghost e0 = errors@;
    match e {
        Expression::StructLiteral(n, vals, sp) => match scope.fields_of(n) {
            Some(fields) => {
                let k = if fields.len() < vals.len() {
                    fields.len()
                } else {
                    vals.len()
                };
                let mut i: usize = 0;
                proof {
                    lemma_appended_nothing(errors@);
                }
                while i < k
                    invariant
                        *e is StructLiteral,
                        *vals == (*e)->StructLiteral_1,
                        k <= fields@.len(),
                        k <= vals@.len(),
                        i <= k,
                        struct_fields(*scope, n@) == Some(fields@),
                        appended(e0, errors@, literal_reports(*scope, fields@, *e, i as int, expand)),
                    decreases k - i,
                {
                    let ghost e1 = errors@;
                    check_type(scope, &fields[i].ty, expand, errors);
                    let ghost e2 = errors@;
                    proof {
                        assert(decreases_to!(vals => vals[i as int]));
                        assert(decreases_to!(vals[i as int] => vals[i as int].1));
                    }
                    check_expression(scope, &vals[i].1, expand, errors);
                    proof {
                        lemma_appended_trans(
                            e0,
                            e1,
                            e2,
                            literal_reports(*scope, fields@, *e, i as int, expand),
                            type_reports(*scope, fields@[i as int].ty, expand),
                        );
                        lemma_appended_trans(
                            e0,
                            e2,
                            errors@,
                            literal_reports(*scope, fields@, *e, i as int, expand) + type_reports(
                                *scope,
                                fields@[i as int].ty,
                                expand,
                            ),
                            expression_reports(*scope, vals@[i as int].1, expand),
                        );
                    }
                    i = i + 1;
                }
            },
            None => report(errors, "unknown struct '", n, sp.duplicate()),
        },
        Expression::StaticMemberAccess(a, b, _) => check_pair(scope, a, b, expand, errors, Ghost(*e)),
        Expression::MemberAccess(a, b, _) => check_pair(scope, a, b, expand, errors, Ghost(*e)),
        Expression::BinaryOperation(a, _, b, _) => check_pair(scope, a, b, expand, errors, Ghost(*e)),
        Expression::ArrayAccess(n, idx, sp) => match scope.locate(n.clone(), sp.duplicate()) {
            Some((t, _)) => {
                check_type(scope, &t, expand, errors);
                let ghost e1 = errors@;
                check_expression(scope, idx, expand, errors);
                proof {
                    lemma_appended_trans(
                        e0,
                        e1,
                        errors@,
                        type_reports(*scope, t, expand),
                        expression_reports(*scope, **idx, expand),
                    );
                }
            },
            None => report(errors, "unknown identifier '", n, sp.duplicate()),
        },
        Expression::AddressOf(x, _) => check_expression(scope, x, expand, errors),
        Expression::Dereference(x, _) => check_expression(scope, x, expand, errors),
        Expression::Try(x, _) => check_expression(scope, x, expand, errors),
        _ => {
            proof {
                lemma_appended_nothing(errors@);
            }
        },
    }
}

/// The type errors of the first `k` field types of a declaration, each resolved with expansion.
pub open spec fn field_type_reports(s: Scope, fs: Seq<StructField>, k: int) -> Seq<Report>
    decreases k,
{
    if k <= 0 {
        seq![]
    } else {
        field_type_reports(s, fs, k - 1) + type_reports(s, fs[k - 1].ty, true)
    }
}

/// The type errors of the first `k` types of a list, each resolved with expansion.
pub open spec fn type_list_reports(s: Scope, ts: Seq<Type>, k: int) -> Seq<Report>
    decreases k,
{
    if k <= 0 {
        seq![]
    } else {
        type_list_reports(s, ts, k - 1) + type_reports(s, ts[k - 1], true)
    }
}

/// The type errors of the first `k` expressions of a list.
pub open spec fn expression_list_reports(s: Scope, es: Seq<Expression>, k: int) -> Seq<Report>
    decreases k,
{
    if k <= 0 {
        seq![]
    } else {
        expression_list_reports(s, es, k - 1) + expression_reports(s, es[k - 1], true)
    }
}

/// The type errors of a statement without a block of its own, checked in scope `before`,
/// which becomes `after` once the statement's name is registered: the types and values it
/// holds are resolved, in that order. `None` for statements with blocks.
pub open spec fn flat_reports(before: Scope, after: Scope, st: Statement) -> Option<Seq<Report>> {
    match st {
        Statement::Struct(_, _, fields, _) => Some(
            field_type_reports(after, fields@, fields@.len() as int),
        ),
        Statement::Enum(_, _, _) => Some(seq![]),
        Statement::TypedEnum(_, t, _, _) => Some(type_reports(after, t, true)),
        Statement::Union(_, ts, _) => Some(type_list_reports(after, ts@, ts@.len() as int)),
        Statement::ConstantDeclaration(_, t, e, _) => Some(
            type_reports(after, t, true) + expression_reports(after, e, true),
        ),
        Statement::VariableDeclaration(_, t, e, _) => Some(
            type_reports(after, t, true) + expression_reports(after, e, true),
        ),
        Statement::MutableDeclaration(_, t, e, _) => Some(
            type_reports(after, t, true) + expression_reports(after, e, true),
        ),
        Statement::Return(es, _) => Some(expression_list_reports(before, es@, es@.len() as int)),
        Statement::Expression(e, _) => Some(expression_reports(before, e, true)),
        Statement::Import(_, _, _) => Some(seq![]),
        _ => None,
    }
}

/// An outermost scope that declares nothing.
pub open spec fn fresh_root(c: Scope) -> bool {
    &&& *c.parent == None::<Scope>
    &&& c.namespaces@.len() == 0
    &&& c.structs@.len() == 0
    &&& c.enums@.len() == 0
    &&& c.unions@.len() == 0
    &&& c.functions@.len() == 0
    &&& c.consts@.len() == 0
    &&& c.variables@.len() == 0
    &&& c.mutables@.len() == 0
    &&& c.parameters@.len() == 0
}

/// A scope just opened inside `parent`: it declares nothing yet.
pub open spec fn fresh_child(c: Scope, parent: Scope) -> bool {
    &&& *c.parent == Some(parent)
    &&& c.namespaces@.len() == 0
    &&& c.structs@.len() == 0
    &&& c.enums@.len() == 0
    &&& c.unions@.len() == 0
    &&& c.functions@.len() == 0
    &&& c.consts@.len() == 0
    &&& c.variables@.len() == 0
    &&& c.mutables@.len() == 0
    &&& c.parameters@.len() == 0
}

/// How a statement was checked, step by step: for each block, the scope before each of its
/// statements and after the last, the errors of each statement, and how each was checked.
pub enum Trace {
    Flat,
    Steps(Seq<Scope>, Seq<Seq<Report>>, Seq<Trace>),
    TwoBlocks(Seq<Scope>, Seq<Seq<Report>>, Seq<Trace>, Seq<Scope>, Seq<Seq<Report>>, Seq<Trace>),
    /// The scopes as the parameters are added and each parameter's errors, then the steps of
    /// the body.
    Function(Seq<Scope>, Seq<Seq<Report>>, Seq<Scope>, Seq<Seq<Report>>, Seq<Trace>),
}

/// The longest of the blocks of a statement.
pub open spec fn body_len(st: Statement) -> nat {
    match st {
        Statement::Namespace(_, b, _) => b@.len(),
        Statement::Function(_, _, _, b, _) => b@.len(),
        Statement::StructFunction(_, _, _, _, b, _) => b@.len(),
        Statement::While(_, b, _) => b@.len(),
        Statement::If(_, a, b, _) => if a@.len() < b@.len() {
            b@.len()
        } else {
            a@.len()
        },
        _ => 0,
    }
}

/// All the reports of a list of chunks, in order.
pub open spec fn flatten(chunks: Seq<Seq<Report>>) -> Seq<Report>
    decreases chunks.len(),
{
    if chunks.len() == 0 {
        seq![]
    } else {
        flatten(chunks.drop_last()) + chunks.last()
    }
}

/// Block `which` of a statement (0, or 1 for the `else` of an `if`).
pub open spec fn block_of(st: Statement, which: nat) -> Vec<Statement> {
    match st {
        Statement::Namespace(_, b, _) => b,
        Statement::Function(_, _, _, b, _) => b,
        Statement::StructFunction(_, _, _, _, b, _) => b,
        Statement::While(_, b, _) => b,
        Statement::If(_, a, b, _) => if which == 0 {
            a
        } else {
            b
        },
        _ => arbitrary(),
    }
}

/// The statements of block `which` of `st`, from the `k`-th on, checked one after another:
/// statement `i` goes from `scopes[i]` to `scopes[i + 1]`, reporting `chunks[i]` as `traces[i]`
/// describes.
pub open spec fn steps_check(
    st: Statement,
    which: nat,
    scopes: Seq<Scope>,
    chunks: Seq<Seq<Report>>,
    traces: Seq<Trace>,
    k: int,
) -> bool
    decreases st, body_len(st) - k,
{
    let b = match st {
        Statement::Namespace(_, b, _) => b,
        Statement::Function(_, _, _, b, _) => b,
        Statement::StructFunction(_, _, _, _, b, _) => b,
        Statement::While(_, b, _) => b,
        Statement::If(_, a, b, _) => if which == 0 {
            a
        } else {
            b
        },
        _ => arbitrary(),
    };
    if k < 0 || k >= chunks.len() || chunks.len() != b@.len() || scopes.len() != chunks.len() + 1
        || traces.len() != chunks.len() || body_len(st) < b@.len() {
        true
    } else {
        checks(scopes[k], b@[k], scopes[k + 1], chunks[k], traces[k]) && steps_check(
            st,
            which,
            scopes,
            chunks,
            traces,
            k + 1,
        )
    }
}

/// Block `which` of `st`, checked in a scope of its own inside `parent` as the steps describe,
/// reports `flatten(chunks)`.
pub open spec fn block_run(
    parent: Scope,
    st: Statement,
    which: nat,
    scopes: Seq<Scope>,
    chunks: Seq<Seq<Report>>,
    traces: Seq<Trace>,
) -> bool
    decreases st, body_len(st) + 1,
{
    &&& chunks.len() == block_of(st, which)@.len()
    &&& scopes.len() == chunks.len() + 1
    &&& traces.len() == chunks.len()
    &&& fresh_child(scopes[0], parent)
    &&& steps_check(st, which, scopes, chunks, traces, 0)
}

/// Checking `st` in scope `before` leaves scope `after` (see `declares`) and reports `errs`,
/// as `tr` describes: a statement without a block reports `flat_reports`; a `while` its
/// condition, then its block, checked in a scope of its own; an `if` its condition, then both
/// blocks; a namespace its body; a function its body, in a scope that holds its parameters
/// after their types are resolved (the first scope of the trace).
pub open spec fn checks(before: Scope, st: Statement, after: Scope, errs: Seq<Report>, tr: Trace) -> bool
    decreases st, body_len(st) + 2,
{
    &&& declares(before, after, st)
    &&& match st {
        Statement::Namespace(_, _, _) => match tr {
            Trace::Steps(sc, ch, ts) => block_run(before, st, 0, sc, ch, ts) && errs == flatten(ch),
            _ => false,
        },
        Statement::While(c, _, _) => match tr {
            Trace::Steps(sc, ch, ts) => block_run(before, st, 0, sc, ch, ts) && errs
                == expression_reports(before, c, true) + flatten(ch),
            _ => false,
        },
        Statement::If(c, _, _, _) => match tr {
            Trace::TwoBlocks(sa, ca, ta, sb, cb, tb) => block_run(before, st, 0, sa, ca, ta)
                && block_run(before, st, 1, sb, cb, tb) && errs == expression_reports(before, c, true)
                + flatten(ca) + flatten(cb),
            _ => false,
        },
        Statement::Function(_, ps, _, _, _) => match tr {
            Trace::Function(pc, pch, sc, ch, ts) => function_run(before, ps@, st, pc, pch, sc, ch, ts, errs),
            _ => false,
        },
        Statement::StructFunction(_, _, ps, _, _, _) => match tr {
            Trace::Function(pc, pch, sc, ch, ts) => function_run(before, ps@, st, pc, pch, sc, ch, ts, errs),
            _ => false,
        },
        _ => flat_reports(before, after, st) == Some(errs),
    }
}

/// The parameters of a function, from the `k`-th on, added one after another: parameter `i`'s
/// type is resolved in `pscopes[i]`, reporting `pchunks[i]`, and `pscopes[i + 1]` adds it.
pub open spec fn parameters_run(
    ps: Seq<(String, Type, bool, Span)>,
    pscopes: Seq<Scope>,
    pchunks: Seq<Seq<Report>>,
    k: int,
) -> bool
    decreases ps.len() - k,
{
    if k < 0 || k >= ps.len() || pscopes.len() != ps.len() + 1 || pchunks.len() != ps.len() {
        true
    } else {
        parameter_step(ps, pscopes, pchunks, k) && parameters_run(ps, pscopes, pchunks, k + 1)
    }
}

/// Parameter `k` is resolved in `pscopes[k]` and added to give `pscopes[k + 1]`.
pub open spec fn parameter_step(
    ps: Seq<(String, Type, bool, Span)>,
    pscopes: Seq<Scope>,
    pchunks: Seq<Seq<Report>>,
    k: int,
) -> bool {
    &&& pscopes[k + 1] == (Scope { parameters: pscopes[k + 1].parameters, ..pscopes[k] })
    &&& pscopes[k + 1].parameters@ == pscopes[k].parameters@.push((ps[k].0, (ps[k].1, ps[k].3)))
    &&& pchunks[k] == type_reports(pscopes[k], ps[k].1, true)
}

/// A function's parameters, then its body (from the last parameter scope), as traced.
pub open spec fn function_run(
    before: Scope,
    ps: Seq<(String, Type, bool, Span)>,
    st: Statement,
    pscopes: Seq<Scope>,
    pchunks: Seq<Seq<Report>>,
    scopes: Seq<Scope>,
    chunks: Seq<Seq<Report>>,
    traces: Seq<Trace>,
    errs: Seq<Report>,
) -> bool
    decreases st, body_len(st) + 1,
{
    &&& pscopes.len() == ps.len() + 1
    &&& fresh_child(pscopes[0], before)
    &&& pchunks.len() == ps.len()
    &&& parameters_run(ps, pscopes, pchunks, 0)
    &&& chunks.len() == block_of(st, 0)@.len()
    &&& scopes.len() == chunks.len() + 1
    &&& traces.len() == chunks.len()
    &&& scopes[0] == pscopes.last()
    &&& steps_check(st, 0, scopes, chunks, traces, 0)
    &&& errs == flatten(pchunks) + flatten(chunks)
}

/// The statements of a program, from the `k`-th on, checked one after another: statement `i`
/// goes from `scopes[i]` to `scopes[i + 1]`, reporting `chunks[i]` as `traces[i]` describes.
pub open spec fn program_run(
    ss: Seq<Statement>,
    scopes: Seq<Scope>,
    chunks: Seq<Seq<Report>>,
    traces: Seq<Trace>,
    k: int,
) -> bool
    decreases ss.len() - k,
{
    if k < 0 || k >= ss.len() || scopes.len() != ss.len() + 1 || chunks.len() != ss.len()
        || traces.len() != ss.len() {
        true
    } else {
        checks(scopes[k], ss[k], scopes[k + 1], chunks[k], traces[k]) && program_run(ss, scopes, chunks, traces, k + 1)
    }
}

/// Checking the program `ss` from scope `first` ends in scope `last` and reports
/// `flatten(chunks)`, as the steps describe.
pub open spec fn program_checks(
    first: Scope,
    ss: Seq<Statement>,
    last: Scope,
    scopes: Seq<Scope>,
    chunks: Seq<Seq<Report>>,
    traces: Seq<Trace>,
) -> bool {
    &&& scopes.len() == ss.len() + 1
    &&& chunks.len() == ss.len()
    &&& traces.len() == ss.len()
    &&& scopes[0] == first
    &&& scopes.last() == last
    &&& program_run(ss, scopes, chunks, traces, 0)
}

proof fn lemma_program(ss: Seq<Statement>, scopes: Seq<Scope>, chunks: Seq<Seq<Report>>, traces: Seq<Trace>, k: int)
    requires
        0 <= k <= ss.len(),
        scopes.len() == ss.len() + 1,
        chunks.len() == ss.len(),
        traces.len() == ss.len(),
        forall|j: int| k <= j < ss.len() ==> #[trigger] checks(scopes[j], ss[j], scopes[j + 1], chunks[j], traces[j]),
    ensures
        program_run(ss, scopes, chunks, traces, k),
    decreases ss.len() - k,
{
    if k < ss.len() {
        lemma_program(ss, scopes, chunks, traces, k + 1);
        assert(checks(scopes[k], ss[k], scopes[k + 1], chunks[k], traces[k]));
    }
}

proof fn lemma_flatten_push(chunks: Seq<Seq<Report>>, c: Seq<Report>)
    ensures
        flatten(chunks.push(c)) == flatten(chunks) + c,
{
    assert(chunks.push(c).drop_last() =~= chunks);
}

/// Steps that each hold make a run of the block from the `k`-th statement on.
proof fn lemma_steps(st: Statement, which: nat, scopes: Seq<Scope>, chunks: Seq<Seq<Report>>, traces: Seq<Trace>, k: int)
    requires
        0 <= k <= chunks.len(),
        chunks.len() == block_of(st, which)@.len(),
        scopes.len() == chunks.len() + 1,
        traces.len() == chunks.len(),
        block_of(st, which)@.len() <= body_len(st),
        forall|j: int| k <= j < chunks.len() ==> #[trigger] checks(scopes[j], block_of(st, which)@[j], scopes[j + 1], chunks[j], traces[j]),
    ensures
        steps_check(st, which, scopes, chunks, traces, k),
    decreases chunks.len() - k,
{
    if k < chunks.len() {
        lemma_steps(st, which, scopes, chunks, traces, k + 1);
        assert(checks(scopes[k], block_of(st, which)@[k], scopes[k + 1], chunks[k], traces[k]));
    }
}

/// Parameter steps that each hold make a run of the parameters from the `k`-th on.
proof fn lemma_parameters(ps: Seq<(String, Type, bool, Span)>, pscopes: Seq<Scope>, pchunks: Seq<Seq<Report>>, k: int)
    requires
        0 <= k <= ps.len(),
        pscopes.len() == ps.len() + 1,
        pchunks.len() == ps.len(),
        forall|j: int| k <= j < ps.len() ==> #[trigger] parameter_step(ps, pscopes, pchunks, j),
    ensures
        parameters_run(ps, pscopes, pchunks, k),
    decreases ps.len() - k,
{
    if k < ps.len() {
        lemma_parameters(ps, pscopes, pchunks, k + 1);
        assert(parameter_step(ps, pscopes, pchunks, k));
    }
}

/// The last entry of `after` is a new one named `name`, after the entries of `before`.
pub open spec fn extends<T>(before: Seq<(String, T)>, after: Seq<(String, T)>, name: String) -> bool {
    &&& after.len() == before.len() + 1
    &&& after.subrange(0, before.len() as int) == before
    &&& after.last().0 == name
}

/// How checking statement `st` changes the scope it is checked in: a declaration adds its
/// name, with a copy of its definition, to the matching table and leaves the rest as it was;
/// any other statement leaves the scope as it was (what its blocks declare goes with them).
pub open spec fn declares(b: Scope, a: Scope, st: Statement) -> bool {
    match st {
        Statement::Namespace(n, body, _) => {
            &&& a == Scope { namespaces: a.namespaces, ..b }
            &&& extends(b.namespaces@, a.namespaces@, n)
            &&& a.namespaces@.last().1@.len() == body@.len()
        },
        Statement::Struct(n, _, fields, _) => {
            &&& a == Scope { structs: a.structs, ..b }
            &&& extends(b.structs@, a.structs@, n)
            &&& a.structs@.last().1@ == fields@
        },
        Statement::Enum(n, vs, _) => {
            &&& a == Scope { enums: a.enums, ..b }
            &&& extends(b.enums@, a.enums@, n)
            &&& a.enums@.last().1@.len() == vs@.len()
            &&& forall|i: int| 0 <= i < vs@.len() ==> same_variant(#[trigger] a.enums@.last().1@[i], vs@[i])
        },
        Statement::TypedEnum(n, _, vs, _) => {
            &&& a == Scope { enums: a.enums, ..b }
            &&& extends(b.enums@, a.enums@, n)
            &&& a.enums@.last().1@.len() == vs@.len()
            &&& forall|i: int| 0 <= i < vs@.len() ==> same_variant(#[trigger] a.enums@.last().1@[i], vs@[i])
        },
        Statement::Union(n, ts, _) => {
            &&& a == Scope { unions: a.unions, ..b }
            &&& extends(b.unions@, a.unions@, n)
            &&& a.unions@.last().1@ == ts@
        },
        Statement::Function(n, _, rs, _, _) => {
            &&& a == Scope { functions: a.functions, ..b }
            &&& extends(b.functions@, a.functions@, n)
            &&& (a.functions@.last().1).1@ == rs@
        },
        Statement::StructFunction(_, n, _, rs, _, _) => {
            &&& a == Scope { functions: a.functions, ..b }
            &&& extends(b.functions@, a.functions@, n)
            &&& (a.functions@.last().1).1@ == rs@
        },
        Statement::ConstantDeclaration(n, t, e, _) => {
            &&& a == Scope { consts: a.consts, ..b }
            &&& extends(b.consts@, a.consts@, n)
            &&& (a.consts@.last().1).0 == t
            &&& same_expression((a.consts@.last().1).1, e)
        },
        Statement::VariableDeclaration(n, t, e, _) => {
            &&& a == Scope { variables: a.variables, ..b }
            &&& extends(b.variables@, a.variables@, n)
            &&& (a.variables@.last().1).0 == t
            &&& same_expression((a.variables@.last().1).1, e)
        },
        Statement::MutableDeclaration(n, t, e, _) => {
            &&& a == Scope { mutables: a.mutables, ..b }
            &&& extends(b.mutables@, a.mutables@, n)
            &&& (a.mutables@.last().1).0 == t
            &&& same_expression((a.mutables@.last().1).1, e)
        },
        _ => a == b,
    }
}

proof fn lemma_reports_are_type_errors(a: Seq<BlazeError>, b: Seq<BlazeError>, m: Seq<Report>)
    requires
        appended(a, b, m),
    ensures
        only_type_errors(a, b),
{
    assert forall|i: int| a.len() <= i < b.len() implies (#[trigger] b[i]) is TypeError by {
        assert(is_report(b[i], m[i - a.len()]));
    }
}

proof fn lemma_only_type_errors_trans(a: Seq<BlazeError>, b: Seq<BlazeError>, c: Seq<BlazeError>)
    requires
        only_type_errors(a, b),
        only_type_errors(b, c),
    ensures
        only_type_errors(a, c),
{
    assert forall|i: int| a.len() <= i < c.len() implies (#[trigger] c[i]) is TypeError by {
        if i < b.len() {
            assert(c[i] == b[i]);
        }
    }
}

/// Name resolution over a whole program: declarations are registered in the current scope,
/// blocks get a scope of their own, and every type and expression is resolved.
#[derive(Debug)]
pub struct Typechecker {
    pub statements: Vec<Statement>,
    pub errors: Vec<BlazeError>,
    pub current_scope: Scope,
}

impl Typechecker {
    /// A typechecker for `statements`, with an empty outermost scope.
    pub fn new(statements: Vec<Statement>) -> (r: Typechecker)
        ensures
            r.statements == statements,
            r.errors@.len() == 0,
            fresh_root(r.current_scope),
    {
        Typechecker { statements, errors: Vec::new(), current_scope: Scope::new(None) }
    }

    /// Checks every top-level statement in order, collecting errors rather than stopping at
    /// Checks every top-level statement in order, collecting errors rather than stopping at
    /// the first (see `program_checks`). Succeeds when no error was recorded; otherwise fails
    /// with all of them.
    pub fn typecheck(&mut self) -> (r: Result<(), Vec<BlazeError>>)
        ensures
            final(self).statements == old(self).statements,
            only_type_errors(old(self).errors@, final(self).errors@),
            *final(self).current_scope.parent == *old(self).current_scope.parent,
            exists|sc: Seq<Scope>, ch: Seq<Seq<Report>>, ts: Seq<Trace>|
                #[trigger] program_checks(old(self).current_scope, old(self).statements@, final(self).current_scope, sc, ch, ts)
                    && appended(old(self).errors@, final(self).errors@, flatten(ch)),
            r is Ok <==> final(self).errors@.len() == 0,
            r is Err ==> r->Err_0@ == final(self).errors@,
    {
        let mut statements: Vec<Statement> = Vec::new();
        std::mem::swap(&mut statements, &mut self.statements);
        let ghost e0 = self.errors@;
        let ghost parent0 = *self.current_scope.parent;
        let ghost mut scopes: Seq<Scope> = seq![self.current_scope];
        let ghost mut chunks: Seq<Seq<Report>> = seq![];
        let ghost mut traces: Seq<Trace> = seq![];
        proof {
            lemma_appended_nothing(e0);
        }
        let mut i: usize = 0;
        while i < statements.len()
            invariant
                i <= statements@.len(),
                statements@ == old(self).statements@,
                only_type_errors(e0, self.errors@),
                *self.current_scope.parent == parent0,
                scopes.len() == i + 1,
                chunks.len() == i,
                traces.len() == i,
                scopes[0] == old(self).current_scope,
                scopes.last() == self.current_scope,
                forall|j: int| 0 <= j < i ==> #[trigger] checks(scopes[j], statements@[j], scopes[j + 1], chunks[j], traces[j]),
                appended(e0, self.errors@, flatten(chunks)),
            decreases statements@.len() - i,
        {
            let ghost e1 = self.errors@;
            let ghost s1 = self.current_scope;
            self.typecheck_statement(&statements[i]);
            proof {
                lemma_only_type_errors_trans(e0, e1, self.errors@);
                lemma_declares_keeps_parent(s1, self.current_scope, statements@[i as int]);
                let (m, t) = choose|m: Seq<Report>, t: Trace| checks(s1, statements@[i as int], self.current_scope, m, t) && appended(e1, self.errors@, m);
                lemma_appended_trans(e0, e1, self.errors@, flatten(chunks), m);
                lemma_flatten_push(chunks, m);
                let old_scopes = scopes;
                let old_chunks = chunks;
                let old_traces = traces;
                scopes = scopes.push(self.current_scope);
                chunks = chunks.push(m);
                traces = traces.push(t);
                assert forall|j: int| 0 <= j < i + 1 implies #[trigger] checks(scopes[j], statements@[j], scopes[j + 1], chunks[j], traces[j]) by {
                    if j < i {
                        assert(scopes[j] == old_scopes[j] && scopes[j + 1] == old_scopes[j + 1]);
                        assert(chunks[j] == old_chunks[j] && traces[j] == old_traces[j]);
                    }
                }
            }
            i = i + 1;
        }
        proof {
            lemma_program(statements@, scopes, chunks, traces, 0);
            assert(program_checks(old(self).current_scope, old(self).statements@, self.current_scope, scopes, chunks, traces));
        }
        std::mem::swap(&mut statements, &mut self.statements);
        if self.errors.len() > 0 {
            let mut out: Vec<BlazeError> = Vec::new();
            let mut j: usize = 0;
            while j < self.errors.len()
                invariant
                    j <= self.errors@.len(),
                    out@ == self.errors@.subrange(0, j as int),
                decreases self.errors@.len() - j,
            {
                out.push(self.errors[j].duplicate());
                j = j + 1;
                proof {
                    assert(out@ =~= self.errors@.subrange(0, j as int));
                }
            }
            proof {
                assert(out@ =~= self.errors@);
            }
            Err(out)
        } else {
            Ok(())
        }
    }

    /// Enters a new, empty scope inside the current one.
    fn open_new_scope(&mut self)
        ensures
            *final(self).current_scope.parent == Some(old(self).current_scope),
            fresh_child(final(self).current_scope, old(self).current_scope),
            final(self).errors == old(self).errors,
            final(self).statements == old(self).statements,
    {
        let mut previous = Scope::new(None);
        std::mem::swap(&mut previous, &mut self.current_scope);
        self.current_scope = Scope::new(Some(previous));
    }

    /// Leaves the current scope for the one that encloses it; what was declared in it is gone.
    fn close_current_scope(&mut self)
        requires
            (*old(self).current_scope.parent) is Some,
        ensures
            final(self).current_scope == (*old(self).current_scope.parent)->0,
            final(self).errors == old(self).errors,
            final(self).statements == old(self).statements,
    {
        let mut inner = Scope::new(None);
        std::mem::swap(&mut inner, &mut self.current_scope);
        match *inner.parent {
            Some(p) => {
                self.current_scope = p;
            },
            None => {},
        }
    }

    /// Checks the statements of block `which` of `whole` in a scope of its own (see
    /// `block_run`).
    fn typecheck_block(&mut self, body: &Vec<Statement>, whole: Ghost<Statement>, which: Ghost<nat>)
        requires
            *body == block_of(whole@, which@),
            body@.len() <= body_len(whole@),
            forall|i: int| 0 <= i < body@.len() ==> decreases_to!(whole@ => #[trigger] body@[i]),
        ensures
            final(self).current_scope == old(self).current_scope,
            only_type_errors(old(self).errors@, final(self).errors@),
            final(self).statements == old(self).statements,
            exists|sc: Seq<Scope>, ch: Seq<Seq<Report>>, ts: Seq<Trace>|
                #[trigger] block_run(old(self).current_scope, whole@, which@, sc, ch, ts) && appended(
                    old(self).errors@,
                    final(self).errors@,
                    flatten(ch),
                ),
        decreases whole@, 0nat,
    {
        let ghost scope0 = self.current_scope;
        let ghost e0 = self.errors@;
        self.open_new_scope();
        let ghost mut scopes: Seq<Scope> = seq![self.current_scope];
        let ghost mut chunks: Seq<Seq<Report>> = seq![];
        let ghost mut traces: Seq<Trace> = seq![];
        proof {
            lemma_appended_nothing(e0);
        }
        let mut i: usize = 0;
        while i < body.len()
            invariant
                i <= body@.len(),
                *body == block_of(whole@, which@),
                body@.len() <= body_len(whole@),
                forall|j: int| 0 <= j < body@.len() ==> decreases_to!(whole@ => #[trigger] body@[j]),
                *self.current_scope.parent == Some(scope0),
                fresh_child(scopes[0], scope0),
                scopes.len() == i + 1,
                chunks.len() == i,
                traces.len() == i,
                scopes.last() == self.current_scope,
                forall|j: int| 0 <= j < i ==> #[trigger] checks(scopes[j], body@[j], scopes[j + 1], chunks[j], traces[j]),
                only_type_errors(e0, self.errors@),
                appended(e0, self.errors@, flatten(chunks)),
                self.statements == old(self).statements,
            decreases body@.len() - i,
        {
            let ghost e1 = self.errors@;
            let ghost s1 = self.current_scope;
            proof {
                assert(decreases_to!(whole@ => body@[i as int]));
            }
            self.typecheck_statement(&body[i]);
            proof {
                lemma_only_type_errors_trans(e0, e1, self.errors@);
                lemma_declares_keeps_parent(s1, self.current_scope, body@[i as int]);
                let (m, t) = choose|m: Seq<Report>, t: Trace| checks(s1, body@[i as int], self.current_scope, m, t) && appended(e1, self.errors@, m);
                lemma_appended_trans(e0, e1, self.errors@, flatten(chunks), m);
                lemma_flatten_push(chunks, m);
                let old_scopes = scopes;
                let old_chunks = chunks;
                let old_traces = traces;
                scopes = scopes.push(self.current_scope);
                chunks = chunks.push(m);
                traces = traces.push(t);
                assert forall|j: int| 0 <= j < i + 1 implies #[trigger] checks(scopes[j], body@[j], scopes[j + 1], chunks[j], traces[j]) by {
                    if j < i {
                        assert(scopes[j] == old_scopes[j] && scopes[j + 1] == old_scopes[j + 1]);
                        assert(chunks[j] == old_chunks[j] && traces[j] == old_traces[j]);
                    }
                }
            }
            i = i + 1;
        }
        proof {
            lemma_steps(whole@, which@, scopes, chunks, traces, 0);
            assert(block_run(scope0, whole@, which@, scopes, chunks, traces));
        }
        self.close_current_scope();
    }

    /// Checks the expressions of a list in turn.
    fn typecheck_expressions(&mut self, es: &Vec<Expression>)
        ensures
            final(self).current_scope == old(self).current_scope,
            appended(
                old(self).errors@,
                final(self).errors@,
                expression_list_reports(old(self).current_scope, es@, es@.len() as int),
            ),
            only_type_errors(old(self).errors@, final(self).errors@),
            final(self).statements == old(self).statements,
    {
        let ghost e0 = self.errors@;
        let mut i: usize = 0;
        proof {
            lemma_appended_nothing(e0);
        }
        while i < es.len()
            invariant
                i <= es@.len(),
                self.current_scope == old(self).current_scope,
                appended(e0, self.errors@, expression_list_reports(self.current_scope, es@, i as int)),
                only_type_errors(e0, self.errors@),
                self.statements == old(self).statements,
            decreases es@.len() - i,
        {
            let ghost e1 = self.errors@;
            check_expression(&self.current_scope, &es[i], true, &mut self.errors);
            proof {
                lemma_reports_are_type_errors(
                    e1,
                    self.errors@,
                    expression_reports(self.current_scope, es@[i as int], true),
                );
                lemma_only_type_errors_trans(e0, e1, self.errors@);
                lemma_appended_trans(
                    e0,
                    e1,
                    self.errors@,
                    expression_list_reports(self.current_scope, es@, i as int),
                    expression_reports(self.current_scope, es@[i as int], true),
                );
            }
            i = i + 1;
        }
    }

    /// Checks the types of a list in turn.
    fn typecheck_types(&mut self, ts: &Vec<Type>)
        ensures
            final(self).current_scope == old(self).current_scope,
            appended(
                old(self).errors@,
                final(self).errors@,
                type_list_reports(old(self).current_scope, ts@, ts@.len() as int),
            ),
            only_type_errors(old(self).errors@, final(self).errors@),
            final(self).statements == old(self).statements,
    {
        let ghost e0 = self.errors@;
        let mut i: usize = 0;
        proof {
            lemma_appended_nothing(e0);
        }
        while i < ts.len()
            invariant
                i <= ts@.len(),
                self.current_scope == old(self).current_scope,
                appended(e0, self.errors@, type_list_reports(self.current_scope, ts@, i as int)),
                only_type_errors(e0, self.errors@),
                self.statements == old(self).statements,
            decreases ts@.len() - i,
        {
            let ghost e1 = self.errors@;
            check_type(&self.current_scope, &ts[i], true, &mut self.errors);
            proof {
                lemma_reports_are_type_errors(
                    e1,
                    self.errors@,
                    type_reports(self.current_scope, ts@[i as int], true),
                );
                lemma_only_type_errors_trans(e0, e1, self.errors@);
                lemma_appended_trans(
                    e0,
                    e1,
                    self.errors@,
                    type_list_reports(self.current_scope, ts@, i as int),
                    type_reports(self.current_scope, ts@[i as int], true),
                );
            }
            i = i + 1;
        }
    }

    /// Checks a function: its parameters' types and its body, in a scope that holds the
    /// Checks a function: its parameters' types and its body, in a scope that holds the
    /// parameters (see `function_run`); then registers its signature.
    fn typecheck_function(
        &mut self,
        name: &String,
        parameters: &Vec<(String, Type, bool, Span)>,
        return_types: &Vec<Type>,
        body: &Vec<Statement>,
        whole: Ghost<Statement>,
    )
        requires
            match whole@ {
                Statement::Function(_, ps, _, b, _) => ps == *parameters && b == *body,
                Statement::StructFunction(_, _, ps, _, b, _) => ps == *parameters && b == *body,
                _ => false,
            },
            forall|i: int| 0 <= i < body@.len() ==> decreases_to!(whole@ => #[trigger] body@[i]),
        ensures
            final(self).current_scope == (Scope {
                functions: final(self).current_scope.functions,
                ..old(self).current_scope
            }),
            extends(old(self).current_scope.functions@, final(self).current_scope.functions@, *name),
            (final(self).current_scope.functions@.last().1).1@ == return_types@,
            only_type_errors(old(self).errors@, final(self).errors@),
            final(self).statements == old(self).statements,
            exists|pc: Seq<Scope>, pch: Seq<Seq<Report>>, sc: Seq<Scope>, ch: Seq<Seq<Report>>, ts: Seq<Trace>|
                #[trigger] function_run(old(self).current_scope, parameters@, whole@, pc, pch, sc, ch, ts, flatten(pch) + flatten(ch))
                    && appended(old(self).errors@, final(self).errors@, flatten(pch) + flatten(ch)),
        decreases whole@, 0nat,
    {
        let ghost scope0 = self.current_scope;
        let ghost e0 = self.errors@;
        self.open_new_scope();
        let ghost mut pscopes: Seq<Scope> = seq![self.current_scope];
        let ghost mut pchunks: Seq<Seq<Report>> = seq![];
        proof {
            lemma_appended_nothing(e0);
        }
        let mut signature: Vec<(String, Type)> = Vec::new();
        let mut i: usize = 0;
        while i < parameters.len()
            invariant
                i <= parameters@.len(),
                *self.current_scope.parent == Some(scope0),
                fresh_child(pscopes[0], scope0),
                pscopes.len() == i + 1,
                pchunks.len() == i,
                pscopes.last() == self.current_scope,
                forall|j: int| 0 <= j < i ==> #[trigger] parameter_step(parameters@, pscopes, pchunks, j),
                only_type_errors(e0, self.errors@),
                appended(e0, self.errors@, flatten(pchunks)),
                self.statements == old(self).statements,
            decreases parameters@.len() - i,
        {
            let p = &parameters[i];
            let ghost e1 = self.errors@;
            let ghost prev = self.current_scope;
            check_type(&self.current_scope, &p.1, true, &mut self.errors);
            proof {
                lemma_reports_are_type_errors(e1, self.errors@, type_reports(prev, p.1, true));
                lemma_only_type_errors_trans(e0, e1, self.errors@);
                lemma_appended_trans(e0, e1, self.errors@, flatten(pchunks), type_reports(prev, p.1, true));
                lemma_flatten_push(pchunks, type_reports(prev, p.1, true));
            }
            self.current_scope.parameters.push((p.0.clone(), (p.1.duplicate(), p.3.duplicate())));
            proof {
                let old_ps = pscopes;
                let old_pc = pchunks;
                pscopes = pscopes.push(self.current_scope);
                pchunks = pchunks.push(type_reports(prev, p.1, true));
                assert forall|j: int| 0 <= j < i + 1 implies #[trigger] parameter_step(parameters@, pscopes, pchunks, j) by {
                    if j < i {
                        assert(pscopes[j] == old_ps[j] && pscopes[j + 1] == old_ps[j + 1] && pchunks[j] == old_pc[j]);
                        assert(parameter_step(parameters@, old_ps, old_pc, j));
                    } else {
                        assert(pscopes[j] == prev);
                    }
                }
            }
            signature.push((p.0.clone(), p.1.duplicate()));
            i = i + 1;
        }
        proof {
            lemma_parameters(parameters@, pscopes, pchunks, 0);
        }
        let ghost e_mid = self.errors@;
        let ghost mut scopes: Seq<Scope> = seq![self.current_scope];
        let ghost mut chunks: Seq<Seq<Report>> = seq![];
        let ghost mut traces: Seq<Trace> = seq![];
        proof {
            lemma_appended_nothing(e_mid);
        }
        let mut j: usize = 0;
        while j < body.len()
            invariant
                j <= body@.len(),
                *body == block_of(whole@, 0),
                body@.len() <= body_len(whole@),
                forall|k: int| 0 <= k < body@.len() ==> decreases_to!(whole@ => #[trigger] body@[k]),
                *self.current_scope.parent == Some(scope0),
                scopes.len() == j + 1,
                chunks.len() == j,
                traces.len() == j,
                scopes[0] == pscopes.last(),
                scopes.last() == self.current_scope,
                forall|k: int| 0 <= k < j ==> #[trigger] checks(scopes[k], body@[k], scopes[k + 1], chunks[k], traces[k]),
                only_type_errors(e0, self.errors@),
                appended(e_mid, self.errors@, flatten(chunks)),
                self.statements == old(self).statements,
            decreases body@.len() - j,
        {
            let ghost e1 = self.errors@;
            let ghost s1 = self.current_scope;
            proof {
                assert(decreases_to!(whole@ => body@[j as int]));
            }
            self.typecheck_statement(&body[j]);
            proof {
                lemma_only_type_errors_trans(e0, e1, self.errors@);
                lemma_declares_keeps_parent(s1, self.current_scope, body@[j as int]);
                let (m, t) = choose|m: Seq<Report>, t: Trace| checks(s1, body@[j as int], self.current_scope, m, t) && appended(e1, self.errors@, m);
                lemma_appended_trans(e_mid, e1, self.errors@, flatten(chunks), m);
                lemma_flatten_push(chunks, m);
                let old_scopes = scopes;
                let old_chunks = chunks;
                let old_traces = traces;
                scopes = scopes.push(self.current_scope);
                chunks = chunks.push(m);
                traces = traces.push(t);
                assert forall|k: int| 0 <= k < j + 1 implies #[trigger] checks(scopes[k], body@[k], scopes[k + 1], chunks[k], traces[k]) by {
                    if k < j {
                        assert(scopes[k] == old_scopes[k] && scopes[k + 1] == old_scopes[k + 1]);
                        assert(chunks[k] == old_chunks[k] && traces[k] == old_traces[k]);
                    }
                }
            }
            j = j + 1;
        }
        proof {
            lemma_steps(whole@, 0, scopes, chunks, traces, 0);
            lemma_appended_trans(e0, e_mid, self.errors@, flatten(pchunks), flatten(chunks));
            assert(function_run(scope0, parameters@, whole@, pscopes, pchunks, scopes, chunks, traces, flatten(pchunks) + flatten(chunks)));
        }
        self.close_current_scope();
        let ghost before = self.current_scope.functions@;
        self.current_scope.functions.push((name.clone(), (signature, duplicate_types(return_types))));
        proof {
            assert(self.current_scope.functions@.subrange(0, before.len() as int) =~= before);
        }
    }

    /// Checks one statement (see `declares` for what it registers).
    fn typecheck_statement(&mut self, statement: &Statement)
        ensures
            declares(old(self).current_scope, final(self).current_scope, *statement),
            only_type_errors(old(self).errors@, final(self).errors@),
            match flat_reports(old(self).current_scope, final(self).current_scope, *statement) {
                Some(ms) => appended(old(self).errors@, final(self).errors@, ms),
                None => true,
            },
            exists|ms: Seq<Report>, tr: Trace|
                #[trigger] checks(old(self).current_scope, *statement, final(self).current_scope, ms, tr)
                    && appended(old(self).errors@, final(self).errors@, ms),
            final(self).statements == old(self).statements,
        decreases *statement, 1nat,
    {
        let ghost e0 = self.errors@;
        let ghost scope0 = self.current_scope;
        match statement {
            Statement::Namespace(n, body, _) => {
                proof {
                    assert forall|i: int| 0 <= i < body@.len() implies decreases_to!(*statement => #[trigger] body@[i]) by {
                        assert(decreases_to!(body => body[i]));
                    }
                }
                let ghost e_start = self.errors@;
                self.typecheck_block(body, Ghost(*statement), Ghost(0nat));
                let ghost before = self.current_scope.namespaces@;
                self.current_scope.namespaces.push((n.clone(), duplicate_statements(body)));
                proof {
                    assert(self.current_scope.namespaces@.subrange(0, before.len() as int) =~= before);
                    let (sc, ch, ts) = choose|sc: Seq<Scope>, ch: Seq<Seq<Report>>, ts: Seq<Trace>| block_run(scope0, *statement, 0, sc, ch, ts) && appended(e_start, self.errors@, flatten(ch));
                    assert(checks(scope0, *statement, self.current_scope, flatten(ch), Trace::Steps(sc, ch, ts)));
                }
            },
            Statement::Struct(n, _, fields, _) => {
                let ghost before = self.current_scope.structs@;
                self.current_scope.structs.push((n.clone(), duplicate_fields(fields)));
                proof {
                    assert(self.current_scope.structs@.subrange(0, before.len() as int) =~= before);
                }
                let ghost scope1 = self.current_scope;
                let mut i: usize = 0;
                proof {
                    lemma_appended_nothing(e0);
                }
                while i < fields.len()
                    invariant
                        i <= fields@.len(),
                        self.current_scope == scope1,
                        appended(e0, self.errors@, field_type_reports(scope1, fields@, i as int)),
                        only_type_errors(e0, self.errors@),
                        self.statements == old(self).statements,
                    decreases fields@.len() - i,
                {
                    let ghost e1 = self.errors@;
                    check_type(&self.current_scope, &fields[i].ty, true, &mut self.errors);
                    proof {
                        lemma_reports_are_type_errors(
                            e1,
                            self.errors@,
                            type_reports(self.current_scope, fields@[i as int].ty, true),
                        );
                        lemma_only_type_errors_trans(e0, e1, self.errors@);
                        lemma_appended_trans(
                            e0,
                            e1,
                            self.errors@,
                            field_type_reports(scope1, fields@, i as int),
                            type_reports(scope1, fields@[i as int].ty, true),
                        );
                    }
                    i = i + 1;
                }
            },
            Statement::Enum(n, variants, _) => {
                let ghost before = self.current_scope.enums@;
                self.current_scope.enums.push((n.clone(), duplicate_variants(variants)));
                proof {
                    assert(self.current_scope.enums@.subrange(0, before.len() as int) =~= before);
                    lemma_appended_nothing(e0);
                }
            },
            Statement::TypedEnum(n, ty, variants, _) => {
                let ghost before = self.current_scope.enums@;
                self.current_scope.enums.push((n.clone(), duplicate_variants(variants)));
                proof {
                    assert(self.current_scope.enums@.subrange(0, before.len() as int) =~= before);
                }
                let ghost e1 = self.errors@;
                check_type(&self.current_scope, ty, true, &mut self.errors);
                proof {
                    lemma_reports_are_type_errors(e1, self.errors@, type_reports(self.current_scope, *ty, true));
                }
            },
            Statement::Union(n, types, _) => {
                let ghost before = self.current_scope.unions@;
                self.current_scope.unions.push((n.clone(), duplicate_types(types)));
                proof {
                    assert(self.current_scope.unions@.subrange(0, before.len() as int) =~= before);
                }
                self.typecheck_types(types);
            },
            Statement::Function(n, parameters, return_types, body, _) => {
                proof {
                    assert forall|i: int| 0 <= i < body@.len() implies decreases_to!(*statement => #[trigger] body@[i]) by {
                        assert(decreases_to!(body => body[i]));
                    }
                }
                self.typecheck_function(n, parameters, return_types, body, Ghost(*statement));
                proof {
                    let (pc, pch, sc, ch, ts) = choose|pc: Seq<Scope>, pch: Seq<Seq<Report>>, sc: Seq<Scope>, ch: Seq<Seq<Report>>, ts: Seq<Trace>| function_run(scope0, parameters@, *statement, pc, pch, sc, ch, ts, flatten(pch) + flatten(ch)) && appended(e0, self.errors@, flatten(pch) + flatten(ch));
                    assert(checks(scope0, *statement, self.current_scope, flatten(pch) + flatten(ch), Trace::Function(pc, pch, sc, ch, ts)));
                }
            },
            Statement::StructFunction(_, n, parameters, return_types, body, _) => {
                proof {
                    assert forall|i: int| 0 <= i < body@.len() implies decreases_to!(*statement => #[trigger] body@[i]) by {
                        assert(decreases_to!(body => body[i]));
                    }
                }
                self.typecheck_function(n, parameters, return_types, body, Ghost(*statement));
                proof {
                    let (pc, pch, sc, ch, ts) = choose|pc: Seq<Scope>, pch: Seq<Seq<Report>>, sc: Seq<Scope>, ch: Seq<Seq<Report>>, ts: Seq<Trace>| function_run(scope0, parameters@, *statement, pc, pch, sc, ch, ts, flatten(pch) + flatten(ch)) && appended(e0, self.errors@, flatten(pch) + flatten(ch));
                    assert(checks(scope0, *statement, self.current_scope, flatten(pch) + flatten(ch), Trace::Function(pc, pch, sc, ch, ts)));
                }
            },
            Statement::ConstantDeclaration(n, ty, e, _) => {
                let ghost before = self.current_scope.consts@;
                self.current_scope.consts.push((n.clone(), (ty.duplicate(), e.duplicate())));
                proof {
                    assert(self.current_scope.consts@.subrange(0, before.len() as int) =~= before);
                }
                self.check_declared(ty, e);
            },
            Statement::VariableDeclaration(n, ty, e, _) => {
                let ghost before = self.current_scope.variables@;
                self.current_scope.variables.push((n.clone(), (ty.duplicate(), e.duplicate())));
                proof {
                    assert(self.current_scope.variables@.subrange(0, before.len() as int) =~= before);
                }
                self.check_declared(ty, e);
            },
            Statement::MutableDeclaration(n, ty, e, _) => {
                let ghost before = self.current_scope.mutables@;
                self.current_scope.mutables.push((n.clone(), (ty.duplicate(), e.duplicate())));
                proof {
                    assert(self.current_scope.mutables@.subrange(0, before.len() as int) =~= before);
                }
                self.check_declared(ty, e);
            },
            Statement::Return(es, _) => {
                self.typecheck_expressions(es);
            },
            Statement::Expression(e, _) => {
                check_expression(&self.current_scope, e, true, &mut self.errors);
                proof {
                    lemma_reports_are_type_errors(e0, self.errors@, expression_reports(scope0, *e, true));
                }
            },
            Statement::While(condition, body, _) => {
                check_expression(&self.current_scope, condition, true, &mut self.errors);
                let ghost e1 = self.errors@;
                proof {
                    lemma_reports_are_type_errors(e0, e1, expression_reports(scope0, *condition, true));
                    assert forall|i: int| 0 <= i < body@.len() implies decreases_to!(*statement => #[trigger] body@[i]) by {
                        assert(decreases_to!(body => body[i]));
                    }
                }
                self.typecheck_block(body, Ghost(*statement), Ghost(0nat));
                proof {
                    lemma_only_type_errors_trans(e0, e1, self.errors@);
                    let ce = expression_reports(scope0, *condition, true);
                    let (sc, ch, ts) = choose|sc: Seq<Scope>, ch: Seq<Seq<Report>>, ts: Seq<Trace>| block_run(scope0, *statement, 0, sc, ch, ts) && appended(e1, self.errors@, flatten(ch));
                    lemma_appended_trans(e0, e1, self.errors@, ce, flatten(ch));
                    assert(checks(scope0, *statement, self.current_scope, ce + flatten(ch), Trace::Steps(sc, ch, ts)));
                }
            },
            Statement::If(condition, then_body, else_body, _) => {
                check_expression(&self.current_scope, condition, true, &mut self.errors);
                let ghost e1 = self.errors@;
                proof {
                    lemma_reports_are_type_errors(e0, e1, expression_reports(scope0, *condition, true));
                    assert forall|i: int| 0 <= i < then_body@.len() implies decreases_to!(*statement => #[trigger] then_body@[i]) by {
                        assert(decreases_to!(then_body => then_body[i]));
                    }
                    assert forall|i: int| 0 <= i < else_body@.len() implies decreases_to!(*statement => #[trigger] else_body@[i]) by {
                        assert(decreases_to!(else_body => else_body[i]));
                    }
                }
                self.typecheck_block(then_body, Ghost(*statement), Ghost(0nat));
                let ghost e2 = self.errors@;
                self.typecheck_block(else_body, Ghost(*statement), Ghost(1nat));
                proof {
                    lemma_only_type_errors_trans(e0, e1, e2);
                    lemma_only_type_errors_trans(e0, e2, self.errors@);
                    let ce = expression_reports(scope0, *condition, true);
                    let (sa, ca, ta) = choose|sc: Seq<Scope>, ch: Seq<Seq<Report>>, ts: Seq<Trace>| block_run(scope0, *statement, 0, sc, ch, ts) && appended(e1, e2, flatten(ch));
                    let (sb, cb, tb) = choose|sc: Seq<Scope>, ch: Seq<Seq<Report>>, ts: Seq<Trace>| block_run(scope0, *statement, 1, sc, ch, ts) && appended(e2, self.errors@, flatten(ch));
                    lemma_appended_trans(e0, e1, e2, ce, flatten(ca));
                    lemma_appended_trans(e0, e2, self.errors@, ce + flatten(ca), flatten(cb));
                    assert(checks(scope0, *statement, self.current_scope, ce + flatten(ca) + flatten(cb), Trace::TwoBlocks(sa, ca, ta, sb, cb, tb)));
                }
            },
            Statement::Import(_, _, _) => {
                proof {
                    lemma_appended_nothing(e0);
                }
            },
        }
        proof {
            if flat_reports(scope0, self.current_scope, *statement) is Some {
                let m = flat_reports(scope0, self.current_scope, *statement)->0;
                assert(checks(scope0, *statement, self.current_scope, m, Trace::Flat));
            }
        }
    }

    /// Checks the type and the initial value of a declaration.
    fn check_declared(&mut self, ty: &Type, e: &Expression)
        ensures
            final(self).current_scope == old(self).current_scope,
            appended(
                old(self).errors@,
                final(self).errors@,
                type_reports(old(self).current_scope, *ty, true) + expression_reports(
                    old(self).current_scope,
                    *e,
                    true,
                ),
            ),
            only_type_errors(old(self).errors@, final(self).errors@),
            final(self).statements == old(self).statements,
    {
        let ghost e0 = self.errors@;
        check_type(&self.current_scope, ty, true, &mut self.errors);
        let ghost e1 = self.errors@;
        check_expression(&self.current_scope, e, true, &mut self.errors);
        proof {
            lemma_reports_are_type_errors(e0, e1, type_reports(self.current_scope, *ty, true));
            lemma_reports_are_type_errors(e1, self.errors@, expression_reports(self.current_scope, *e, true));
            lemma_only_type_errors_trans(e0, e1, self.errors@);
            lemma_appended_trans(
                e0,
                e1,
                self.errors@,
                type_reports(self.current_scope, *ty, true),
                expression_reports(self.current_scope, *e, true),
            );
        }
    }
}

/// Checking a struct declaration makes its name resolve, in the scope it was checked in, to
/// that struct, whose fields are the declared ones in their order.
pub proof fn lemma_declared_struct_resolves(before: Scope, after: Scope, st: Statement, span: Span)
    requires
        st is Struct,
        declares(before, after, st),
    ensures
        type_named(after, st->Struct_0, span) == Some(Type::Struct(st->Struct_0, span)),
        struct_fields(after, st->Struct_0@) == Some(st->Struct_2@),
{
    assert(last_index(after.structs@, st->Struct_0@) == Some(after.structs@.len() - 1));
}

/// Checking a statement never touches the scopes that enclose the current one.
proof fn lemma_declares_keeps_parent(b: Scope, a: Scope, st: Statement)
    requires
        declares(b, a, st),
    ensures
        a.parent == b.parent,
{
}

} // verus!
