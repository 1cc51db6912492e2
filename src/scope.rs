use vstd::prelude::*;
use crate::ast::{EnumVariant, Expression, Statement, StructField, Type, same_expression};
use crate::span::Span;

verus! {

/// The index of the last entry of `t` whose key is `name`: later declarations shadow
/// earlier ones.
pub open spec fn last_index<T>(t: Seq<(String, T)>, name: Seq<char>) -> Option<int>
    decreases t.len(),
{
    if t.len() == 0 {
        None
    } else if t.last().0@ == name {
        Some(t.len() - 1)
    } else {
        last_index(t.drop_last(), name)
    }
}

/// What `name` is bound to in scope `s` or, failing that, its enclosing scopes: a constant,
/// then a variable, then a mutable, then a parameter (which stands for itself), each scope
/// searched before its parent.
pub open spec fn binding(s: Scope, name: String, span: Span) -> Option<(Type, Expression)>
    decreases s,
{
    match last_index(s.consts@, name@) {
        Some(i) => Some(s.consts@[i].1),
        None => match last_index(s.variables@, name@) {
            Some(i) => Some(s.variables@[i].1),
            None => match last_index(s.mutables@, name@) {
                Some(i) => Some(s.mutables@[i].1),
                None => match last_index(s.parameters@, name@) {
                    Some(i) => Some(((s.parameters@[i].1).0, Expression::Identifier(name, span))),
                    None => match *s.parent {
                        Some(p) => binding(p, name, span),
                        None => None,
                    },
                },
            },
        },
    }
}

/// The declared type that `name` refers to, tagged with `span`: a struct, then an enum, then
/// a union, each scope searched before its parent.
pub open spec fn type_named(s: Scope, name: String, span: Span) -> Option<Type>
    decreases s,
{
    if last_index(s.structs@, name@) is Some {
        Some(Type::Struct(name, span))
    } else if last_index(s.enums@, name@) is Some {
        Some(Type::Enum(name, span))
    } else if last_index(s.unions@, name@) is Some {
        Some(Type::Union(name, span))
    } else {
        match *s.parent {
            Some(p) => type_named(p, name, span),
            None => None,
        }
    }
}

/// The fields of the struct `name` visible from `s`.
pub open spec fn struct_fields(s: Scope, name: Seq<char>) -> Option<Seq<StructField>>
    decreases s,
{
    match last_index(s.structs@, name) {
        Some(i) => Some(s.structs@[i].1@),
        None => match *s.parent {
            Some(p) => struct_fields(p, name),
            None => None,
        },
    }
}

/// The variants of the enum `name` visible from `s`.
pub open spec fn enum_variants(s: Scope, name: Seq<char>) -> Option<Seq<EnumVariant>>
    decreases s,
{
    match last_index(s.enums@, name) {
        Some(i) => Some(s.enums@[i].1@),
        None => match *s.parent {
            Some(p) => enum_variants(p, name),
            None => None,
        },
    }
}

/// The member types of the union `name` visible from `s`.
pub open spec fn union_members(s: Scope, name: Seq<char>) -> Option<Seq<Type>>
    decreases s,
{
    match last_index(s.unions@, name) {
        Some(i) => Some(s.unions@[i].1@),
        None => match *s.parent {
            Some(p) => union_members(p, name),
            None => None,
        },
    }
}

/// A mutable declared in a scope hides, there, a constant of the same name declared in the
/// enclosing scope; a sibling scope of the same parent that declares nothing of that name
/// still finds the constant.
pub proof fn lemma_inner_mutable_shadows_outer_constant(
    outer: Scope,
    inner: Scope,
    sibling: Scope,
    name: String,
    span: Span,
)
    requires
        *inner.parent == Some(outer),
        *sibling.parent == Some(outer),
        last_index(outer.consts@, name@) is Some,
        last_index(inner.consts@, name@) is None,
        last_index(inner.variables@, name@) is None,
        last_index(inner.mutables@, name@) is Some,
        last_index(sibling.consts@, name@) is None,
        last_index(sibling.variables@, name@) is None,
        last_index(sibling.mutables@, name@) is None,
        last_index(sibling.parameters@, name@) is None,
    ensures
        binding(inner, name, span) == Some(
            inner.mutables@[last_index(inner.mutables@, name@)->0].1,
        ),
        binding(sibling, name, span) == Some(
            outer.consts@[last_index(outer.consts@, name@)->0].1,
        ),
{
    assert(binding(outer, name, span) == Some(outer.consts@[last_index(outer.consts@, name@)->0].1));
}

/// A lexical symbol table, linked to the scope that encloses it. Each table keeps
/// declarations in order; the last one of a name shadows the others.
#[derive(Debug)]
pub struct Scope {
    pub parent: Box<Option<Scope>>,
    pub namespaces: Vec<(String, Vec<Statement>)>,
    pub structs: Vec<(String, Vec<StructField>)>,
    pub enums: Vec<(String, Vec<EnumVariant>)>,
    pub unions: Vec<(String, Vec<Type>)>,
    /// Parameter names and types, and return types, of each function.
    pub functions: Vec<(String, (Vec<(String, Type)>, Vec<Type>))>,
    pub consts: Vec<(String, (Type, Expression))>,
    pub variables: Vec<(String, (Type, Expression))>,
    pub mutables: Vec<(String, (Type, Expression))>,
    pub parameters: Vec<(String, (Type, Span))>,
}

/// The position of the last entry named `name`.
fn find_last<T>(t: &Vec<(String, T)>, name: &String) -> (r: Option<usize>)
    ensures
        match last_index(t@, name@) {
            Some(i) => 0 <= i < t@.len() && r is Some && r->0 as int == i,
            None => r is None,
        },
{
    let mut i: usize = t.len();
    proof {
        assert(t@.subrange(0, i as int) =~= t@);
    }
    while i > 0
        invariant
            i <= t@.len(),
            last_index(t@, name@) == last_index(t@.subrange(0, i as int), name@),
        decreases i,
    {
        proof {
            let pre = t@.subrange(0, i as int);
            assert(pre.drop_last() =~= t@.subrange(0, i - 1));
            assert(pre.last() == t@[i - 1]);
        }
        if t[i - 1].0 == *name {
            return Some(i - 1);
        }
        i = i - 1;
    }
    proof {
        assert(t@.subrange(0, 0) =~= Seq::<(String, T)>::empty());
    }
    None
}

impl Scope {
    /// An empty scope inside `parent`, or an outermost one.
    pub fn new(parent: Option<Scope>) -> (r: Scope)
        ensures
            *r.parent == parent,
            r.namespaces@.len() == 0,
            r.structs@.len() == 0,
            r.enums@.len() == 0,
            r.unions@.len() == 0,
            r.functions@.len() == 0,
            r.consts@.len() == 0,
            r.variables@.len() == 0,
            r.mutables@.len() == 0,
            r.parameters@.len() == 0,
    {
        Scope {
            parent: Box::new(parent),
            namespaces: Vec::new(),
            structs: Vec::new(),
            enums: Vec::new(),
            unions: Vec::new(),
            functions: Vec::new(),
            consts: Vec::new(),
            variables: Vec::new(),
            mutables: Vec::new(),
            parameters: Vec::new(),
        }
    }

    /// What `identifier` is bound to here or in an enclosing scope (see `binding`); the
    /// expression is a copy of the one declared.
    pub fn locate(&self, identifier: String, span: Span) -> (r: Option<(Type, Expression)>)
        ensures
            match binding(*self, identifier, span) {
                Some((t, e)) => match r {
                    Some((rt, re)) => rt == t && same_expression(re, e),
                    None => false,
                },
                None => r is None,
            },
        decreases self,
    {
        match find_last(&self.consts, &identifier) {
            Some(i) => {
                let entry = &self.consts[i].1;
                assert(binding(*self, identifier, span) == Some(self.consts@[i as int].1));
                return Some((entry.0.duplicate(), entry.1.duplicate()));
            },
            None => {},
        }
        match find_last(&self.variables, &identifier) {
            Some(i) => {
                let entry = &self.variables[i].1;
                assert(binding(*self, identifier, span) == Some(self.variables@[i as int].1));
                return Some((entry.0.duplicate(), entry.1.duplicate()));
            },
            None => {},
        }
        match find_last(&self.mutables, &identifier) {
            Some(i) => {
                let entry = &self.mutables[i].1;
                assert(binding(*self, identifier, span) == Some(self.mutables@[i as int].1));
                return Some((entry.0.duplicate(), entry.1.duplicate()));
            },
            None => {},
        }
        match find_last(&self.parameters, &identifier) {
            Some(i) => {
                let ty = (self.parameters[i].1).0.duplicate();
                let ghost expected = binding(*self, identifier, span);
                let e = Expression::Identifier(identifier, span);
                assert(expected == Some((ty, e)));
                return Some((ty, e));
            },
            None => {},
        }
        match &*self.parent {
            Some(p) => p.locate(identifier, span),
            None => None,
        }
    }

    /// The declared type `identifier` names here or in an enclosing scope (see
    /// `type_named`).
    pub fn get_type(&self, identifier: String, span: Span) -> (r: Option<Type>)
        ensures
            r == type_named(*self, identifier, span),
        decreases self,
    {
        if find_last(&self.structs, &identifier).is_some() {
            Some(Type::Struct(identifier, span))
        } else if find_last(&self.enums, &identifier).is_some() {
            Some(Type::Enum(identifier, span))
        } else if find_last(&self.unions, &identifier).is_some() {
            Some(Type::Union(identifier, span))
        } else {
            match &*self.parent {
                Some(p) => p.get_type(identifier, span),
                None => None,
            }
        }
    }

    /// The fields of the struct `name` visible from here.
    pub fn fields_of(&self, name: &String) -> (r: Option<&Vec<StructField>>)
        ensures
            match struct_fields(*self, name@) {
                Some(fs) => r is Some && r->0@ == fs,
                None => r is None,
            },
        decreases self,
    {
        match find_last(&self.structs, name) {
            Some(i) => {
                assert(struct_fields(*self, name@) == Some(self.structs@[i as int].1@));
                Some(&self.structs[i].1)
            },
            None => match &*self.parent {
                Some(p) => p.fields_of(name),
                None => None,
            },
        }
    }

    /// The variants of the enum `name` visible from here.
    pub fn variants_of(&self, name: &String) -> (r: Option<&Vec<EnumVariant>>)
        ensures
            match enum_variants(*self, name@) {
                Some(vs) => r is Some && r->0@ == vs,
                None => r is None,
            },
        decreases self,
    {
        match find_last(&self.enums, name) {
            Some(i) => {
                assert(enum_variants(*self, name@) == Some(self.enums@[i as int].1@));
                Some(&self.enums[i].1)
            },
            None => match &*self.parent {
                Some(p) => p.variants_of(name),
                None => None,
            },
        }
    }

    /// The member types of the union `name` visible from here.
    pub fn members_of(&self, name: &String) -> (r: Option<&Vec<Type>>)
        ensures
            match union_members(*self, name@) {
                Some(ts) => r is Some && r->0@ == ts,
                None => r is None,
            },
        decreases self,
    {
        match find_last(&self.unions, name) {
            Some(i) => {
                assert(union_members(*self, name@) == Some(self.unions@[i as int].1@));
                Some(&self.unions[i].1)
            },
            None => match &*self.parent {
                Some(p) => p.members_of(name),
                None => None,
            },
        }
    }
}

} // verus!
