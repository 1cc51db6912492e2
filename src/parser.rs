use vstd::prelude::*;
use crate::ast::{
    EnumVariant, ExprModel, Expression, Statement, StmtModel, StructField, Type, VariantModel,
    expr_model, exprs_model, lemma_char_model, expression_span, stmt_model, stmts_model, variants_model,
};
use crate::error::BlazeError;
use crate::span::Span;
use crate::text::chars_of;
use crate::token::{Token, TokenKind};

verus! {

/// Whether token `i` exists and is of kind `k`.
pub open spec fn is_kind(toks: Seq<Token>, i: int, k: TokenKind) -> bool {
    0 <= i < toks.len() && toks[i].kind == k
}

/// Whether token `i` is an identifier that carries its text.
pub open spec fn word_at(toks: Seq<Token>, i: int) -> bool {
    is_kind(toks, i, TokenKind::Identifier) && toks[i].literal is Some
}

/// The text carried by token `i`.
pub open spec fn text_at(toks: Seq<Token>, i: int) -> String {
    toks[i].literal->0
}

/// The tokens the grammar reads: line breaks carry no meaning to it.
pub open spec fn without_newlines(s: Seq<Token>) -> Seq<Token>
    decreases s.len(),
{
    if s.len() == 0 {
        s
    } else if s.last().kind == TokenKind::Newline {
        without_newlines(s.drop_last())
    } else {
        without_newlines(s.drop_last()).push(s.last())
    }
}

/// The type written at `pos`, and the position after it: a primitive keyword; `*T`, `[]T`,
/// `?T`; `$name`; or a bare name, which stays unresolved.
pub open spec fn type_at(toks: Seq<Token>, pos: int) -> Option<(Type, int)>
    decreases toks.len() - pos,
{
    if pos < 0 || pos >= toks.len() {
        None
    } else {
        let sp = toks[pos].span;
        match toks[pos].kind {
            TokenKind::I8 => Some((Type::I8(sp), pos + 1)),
            TokenKind::I16 => Some((Type::I16(sp), pos + 1)),
            TokenKind::I32 => Some((Type::I32(sp), pos + 1)),
            TokenKind::I64 => Some((Type::I64(sp), pos + 1)),
            TokenKind::U8 => Some((Type::U8(sp), pos + 1)),
            TokenKind::U16 => Some((Type::U16(sp), pos + 1)),
            TokenKind::U32 => Some((Type::U32(sp), pos + 1)),
            TokenKind::U64 => Some((Type::U64(sp), pos + 1)),
            TokenKind::F32 => Some((Type::F32(sp), pos + 1)),
            TokenKind::F64 => Some((Type::F64(sp), pos + 1)),
            TokenKind::Bool => Some((Type::Bool(sp), pos + 1)),
            TokenKind::Char => Some((Type::Char(sp), pos + 1)),
            TokenKind::Void => Some((Type::Void(sp), pos + 1)),
            TokenKind::Asterisk => match type_at(toks, pos + 1) {
                Some((t, e)) => Some((Type::Pointer(Box::new(t), sp), e)),
                None => None,
            },
            TokenKind::OpenBracket => if is_kind(toks, pos + 1, TokenKind::CloseBracket) {
                match type_at(toks, pos + 2) {
                    Some((t, e)) => Some((Type::Array(Box::new(t), sp), e)),
                    None => None,
                }
            } else {
                None
            },
            TokenKind::QuestionMark => match type_at(toks, pos + 1) {
                Some((t, e)) => Some((Type::Optional(Box::new(t), sp), e)),
                None => None,
            },
            TokenKind::Dollar => if word_at(toks, pos + 1) {
                Some((Type::Generic(text_at(toks, pos + 1), sp), pos + 2))
            } else {
                None
            },
            TokenKind::Identifier => if toks[pos].literal is Some {
                Some((Type::Unknown(text_at(toks, pos), sp), pos + 1))
            } else {
                None
            },
            _ => None,
        }
    }
}

/// The fields of a struct body written from `p` on: `name: Type` separated by commas, a comma
/// after the last one allowed; and the position where the list ends, where `}` must follow.
pub open spec fn fields_at(toks: Seq<Token>, p: int) -> Option<(Seq<StructField>, int)>
    decreases toks.len() - p,
{
    if p < 0 || p >= toks.len() {
        None
    } else if is_kind(toks, p, TokenKind::CloseBrace) {
        Some((seq![], p))
    } else if word_at(toks, p) && is_kind(toks, p + 1, TokenKind::Colon) {
        match type_at(toks, p + 2) {
            Some((t, q)) => {
                let f = StructField { name: text_at(toks, p), ty: t, span: toks[p].span };
                if is_kind(toks, q, TokenKind::Comma) && p < q {
                    match fields_at(toks, q + 1) {
                        Some((fs, e)) => Some((seq![f] + fs, e)),
                        None => None,
                    }
                } else {
                    Some((seq![f], q))
                }
            },
            None => None,
        }
    } else {
        None
    }
}

/// The parameters written from `p` on, the receiver type (`self: Type`, the last one
/// written wins, else `receiver`), and the position where the list ends, where `)` must
/// follow. A parameter is `[comptime] name: Type`; `name: ...` or `name: Type...` takes the
/// remaining arguments and ends the list.
pub open spec fn parameters_at(toks: Seq<Token>, p: int, receiver: Option<Type>) -> Option<
    (Seq<(String, Type, bool, Span)>, Option<Type>, int),
>
    decreases toks.len() - p,
{
    if p < 0 || p >= toks.len() {
        None
    } else if is_kind(toks, p, TokenKind::CloseParenthesis) {
        Some((seq![], receiver, p))
    } else {
        let sp = toks[p].span;
        let comptime = is_kind(toks, p, TokenKind::Comptime);
        let q = if comptime {
            p + 1
        } else {
            p
        };
        if is_kind(toks, q, TokenKind::SelfKeyword) {
            if !is_kind(toks, q + 1, TokenKind::Colon) {
                None
            } else {
                match type_at(toks, q + 2) {
                    Some((t, r)) => if is_kind(toks, r, TokenKind::CloseParenthesis) {
                        Some((seq![], Some(t), r))
                    } else if is_kind(toks, r, TokenKind::Comma) && p < r {
                        parameters_at(toks, r + 1, Some(t))
                    } else {
                        None
                    },
                    None => None,
                }
            }
        } else if word_at(toks, q) && is_kind(toks, q + 1, TokenKind::Colon) {
            let name = text_at(toks, q);
            if is_kind(toks, q + 2, TokenKind::Elipsis) {
                Some(
                    (
                        seq![(name, Type::VarArgs(Box::new(None), toks[q + 2].span), comptime, sp)],
                        receiver,
                        q + 3,
                    ),
                )
            } else {
                match type_at(toks, q + 2) {
                    Some((t, r)) => if is_kind(toks, r, TokenKind::Elipsis) {
                        Some(
                            (
                                seq![(name, Type::VarArgs(Box::new(Some(t)), toks[r].span), comptime, sp)],
                                receiver,
                                r + 1,
                            ),
                        )
                    } else if is_kind(toks, r, TokenKind::CloseParenthesis) {
                        Some((seq![(name, t, comptime, sp)], receiver, r))
                    } else if is_kind(toks, r, TokenKind::Comma) && p < r {
                        match parameters_at(toks, r + 1, receiver) {
                            Some((ps, rc, e)) => Some((seq![(name, t, comptime, sp)] + ps, rc, e)),
                            None => None,
                        }
                    } else {
                        None
                    },
                    None => None,
                }
            }
        } else {
            None
        }
    }
}

/// The member types of a union body written from `p` on, separated by commas, a comma after
/// the last one allowed; and the position where the list ends, where `}` must follow.
pub open spec fn members_at(toks: Seq<Token>, p: int) -> Option<(Seq<Type>, int)>
    decreases toks.len() - p,
{
    if p < 0 || p >= toks.len() {
        None
    } else if is_kind(toks, p, TokenKind::CloseBrace) {
        Some((seq![], p))
    } else {
        match type_at(toks, p) {
            Some((t, q)) => if is_kind(toks, q, TokenKind::Comma) && p < q {
                match members_at(toks, q + 1) {
                    Some((ts, e)) => Some((seq![t] + ts, e)),
                    None => None,
                }
            } else {
                Some((seq![t], q))
            },
            None => None,
        }
    }
}

/// A comma-separated list of types from `p` on, and the position after it.
pub open spec fn types_at(toks: Seq<Token>, p: int) -> Option<(Seq<Type>, int)>
    decreases toks.len() - p,
{
    match type_at(toks, p) {
        Some((t, q)) => if is_kind(toks, q, TokenKind::Comma) && p < q {
            match types_at(toks, q + 1) {
                Some((ts, e)) => Some((seq![t] + ts, e)),
                None => None,
            }
        } else {
            Some((seq![t], q))
        },
        None => None,
    }
}

/// The return types at `p`: `-> Type, ...`, or `void` (with the function's span) when no
/// arrow follows; and the position after them.
pub open spec fn return_types_at(toks: Seq<Token>, p: int, span: Span) -> Option<(Seq<Type>, int)> {
    if is_kind(toks, p, TokenKind::Arrow) {
        types_at(toks, p + 1)
    } else {
        Some((seq![Type::Void(span)], p))
    }
}

/// `q` lies after `p` and within the tokens.
pub open spec fn ahead(toks: Seq<Token>, p: int, q: int) -> bool {
    p < q <= toks.len()
}

/// The expression at `pos` and the position after it: member access over binary operations
/// over primaries. Both kinds of chain nest to the right, since the right operand or member is
/// a whole expression.
pub open spec fn expr_at(toks: Seq<Token>, pos: int) -> Option<(ExprModel, int)>
    decreases toks.len() - pos, 3nat,
{
    if pos < 0 || pos > toks.len() {
        None
    } else {
        member_at(toks, pos)
    }
}

pub open spec fn member_at(toks: Seq<Token>, pos: int) -> Option<(ExprModel, int)>
    decreases toks.len() - pos, 2nat,
{
    if pos < 0 || pos >= toks.len() {
        None
    } else {
        match binary_at(toks, pos) {
            Some((e, p)) => if ahead(toks, pos, p) {
                member_rest(toks, toks[pos].span, e, p)
            } else {
                None
            },
            None => None,
        }
    }
}

/// `.member` and `::member` after the expression `acc`, which starts with span `span`.
pub open spec fn member_rest(toks: Seq<Token>, span: Span, acc: ExprModel, p: int) -> Option<
    (ExprModel, int),
>
    decreases toks.len() - p, 1nat,
{
    if p < 0 || p > toks.len() {
        None
    } else if is_kind(toks, p, TokenKind::Dot) || is_kind(toks, p, TokenKind::DoubleColon) {
        match expr_at(toks, p + 1) {
            Some((m, q)) => if ahead(toks, p, q) {
                let e = if is_kind(toks, p, TokenKind::DoubleColon) {
                    ExprModel::StaticMemberAccess(Box::new(acc), Box::new(m), span)
                } else {
                    ExprModel::MemberAccess(Box::new(acc), Box::new(m), span)
                };
                member_rest(toks, span, e, q)
            } else {
                None
            },
            None => None,
        }
    } else {
        Some((acc, p))
    }
}

pub open spec fn binary_at(toks: Seq<Token>, pos: int) -> Option<(ExprModel, int)>
    decreases toks.len() - pos, 1nat,
{
    if pos < 0 || pos >= toks.len() {
        None
    } else {
        match primary_at(toks, pos) {
            Some((e, p)) => if ahead(toks, pos, p) {
                binary_rest(toks, toks[pos].span, e, p)
            } else {
                None
            },
            None => None,
        }
    }
}

/// An operator and a whole expression after the operand `acc`.
pub open spec fn binary_rest(toks: Seq<Token>, span: Span, acc: ExprModel, p: int) -> Option<
    (ExprModel, int),
>
    decreases toks.len() - p, 0nat,
{
    if p < 0 || p > toks.len() {
        None
    } else if p < toks.len() && is_operator(toks[p].kind) {
        match expr_at(toks, p + 1) {
            Some((r, q)) => if ahead(toks, p, q) {
                binary_rest(
                    toks,
                    span,
                    ExprModel::BinaryOperation(Box::new(acc), toks[p].kind, Box::new(r), span),
                    q,
                )
            } else {
                None
            },
            None => None,
        }
    } else {
        Some((acc, p))
    }
}

/// A primary expression at `pos`: a name, with `[index]` or `{ fields }` after it, or not; an
/// integer (a run of digits that fits an `i64`), a one-character literal, a string; `self`,
/// `null`; or `&`, `*`, `try` before a whole expression.
pub open spec fn primary_at(toks: Seq<Token>, pos: int) -> Option<(ExprModel, int)>
    decreases toks.len() - pos, 0nat,
{
    if pos < 0 || pos >= toks.len() {
        None
    } else {
        let sp = toks[pos].span;
        let p = pos + 1;
        match toks[pos].kind {
            TokenKind::Identifier => if toks[pos].literal is None {
                None
            } else if is_kind(toks, p, TokenKind::OpenBracket) {
                match expr_at(toks, p + 1) {
                    Some((i, q)) => if is_kind(toks, q, TokenKind::CloseBracket) {
                        Some((ExprModel::ArrayAccess(text_at(toks, pos), Box::new(i), sp), q + 1))
                    } else {
                        None
                    },
                    None => None,
                }
            } else if is_kind(toks, p, TokenKind::OpenBrace) {
                match literal_fields_at(toks, p + 1) {
                    Some((fs, q)) => if is_kind(toks, q, TokenKind::CloseBrace) {
                        Some((ExprModel::StructLiteral(text_at(toks, pos), fs, sp), q + 1))
                    } else {
                        None
                    },
                    None => None,
                }
            } else {
                Some((ExprModel::Identifier(text_at(toks, pos), sp), p))
            },
            TokenKind::IntegerLiteral => if toks[pos].literal is Some && all_digits(
                text_at(toks, pos)@,
            ) && decimal_value(text_at(toks, pos)@) <= i64::MAX {
                Some((ExprModel::Integer(decimal_value(text_at(toks, pos)@) as i64, sp), p))
            } else {
                None
            },
            TokenKind::CharLiteral => if toks[pos].literal is Some && text_at(toks, pos)@.len()
                == 1 {
                Some((ExprModel::Char(text_at(toks, pos)@[0], sp), p))
            } else {
                None
            },
            TokenKind::StringLiteral => if toks[pos].literal is Some {
                Some((ExprModel::String(text_at(toks, pos), sp), p))
            } else {
                None
            },
            TokenKind::SelfKeyword => Some((ExprModel::SelfLiteral(sp), p)),
            TokenKind::Null => Some((ExprModel::Null(sp), p)),
            TokenKind::Ampersand => match expr_at(toks, p) {
                Some((e, q)) => Some((ExprModel::AddressOf(Box::new(e), sp), q)),
                None => None,
            },
            TokenKind::Asterisk => match expr_at(toks, p) {
                Some((e, q)) => Some((ExprModel::Dereference(Box::new(e), sp), q)),
                None => None,
            },
            TokenKind::Try => match expr_at(toks, p) {
                Some((e, q)) => Some((ExprModel::Try(Box::new(e), sp), q)),
                None => None,
            },
            _ => None,
        }
    }
}

/// The initializers of a struct literal from `p` on: `[name:] expr` separated by commas, a
/// comma after the last one allowed; and the position where they end, where `}` must follow.
pub open spec fn literal_fields_at(toks: Seq<Token>, p: int) -> Option<
    (Seq<(Option<String>, ExprModel, Span)>, int),
>
    decreases toks.len() - p, 4nat,
{
    if p < 0 || p >= toks.len() {
        None
    } else if is_kind(toks, p, TokenKind::CloseBrace) {
        Some((seq![], p))
    } else if is_kind(toks, p + 1, TokenKind::Colon) && !word_at(toks, p) {
        None
    } else {
        let named = is_kind(toks, p + 1, TokenKind::Colon);
        let start = if named {
            p + 2
        } else {
            p
        };
        let name = if named {
            Some(text_at(toks, p))
        } else {
            None
        };
        match expr_at(toks, start) {
            Some((v, a)) => {
                let f = (name, v, toks[p].span);
                if is_kind(toks, a, TokenKind::Comma) && ahead(toks, p, a) {
                    match literal_fields_at(toks, a + 1) {
                        Some((fs, e)) => Some((seq![f] + fs, e)),
                        None => None,
                    }
                } else {
                    Some((seq![f], a))
                }
            },
            None => None,
        }
    }
}

/// A comma-separated list of expressions from `p` on, and the position after it.
pub open spec fn exprs_at(toks: Seq<Token>, p: int) -> Option<(Seq<ExprModel>, int)>
    decreases toks.len() - p,
{
    if p < 0 || p > toks.len() {
        None
    } else {
        match expr_at(toks, p) {
            Some((x, q)) => if is_kind(toks, q, TokenKind::Comma) && ahead(toks, p, q) {
                match exprs_at(toks, q + 1) {
                    Some((xs, e)) => Some((seq![x] + xs, e)),
                    None => None,
                }
            } else {
                Some((seq![x], q))
            },
            None => None,
        }
    }
}

/// The variants of an enum body from `p` on: `Name`, or `Name = expr` where the enum has a
/// backing type (`typed`), separated by commas; and the position where they end, where `}`
/// must follow.
pub open spec fn variants_at(toks: Seq<Token>, p: int, typed: bool) -> Option<(Seq<VariantModel>, int)>
    decreases toks.len() - p,
{
    if p < 0 || p >= toks.len() {
        None
    } else if is_kind(toks, p, TokenKind::CloseBrace) {
        Some((seq![], p))
    } else if !word_at(toks, p) {
        None
    } else {
        let name = text_at(toks, p);
        let sp = toks[p].span;
        let q = p + 1;
        if is_kind(toks, q, TokenKind::Comma) {
            match variants_at(toks, q + 1, typed) {
                Some((vs, e)) => Some((seq![VariantModel::Unit(name, sp)] + vs, e)),
                None => None,
            }
        } else if is_kind(toks, q, TokenKind::CloseBrace) {
            Some((seq![VariantModel::Unit(name, sp)], q))
        } else if !is_kind(toks, q, TokenKind::Equal) || !typed {
            None
        } else {
            match expr_at(toks, q + 1) {
                Some((v, a)) => {
                    let variant = VariantModel::Expression(name, v, sp);
                    if is_kind(toks, a, TokenKind::Comma) && ahead(toks, p, a) {
                        match variants_at(toks, a + 1, typed) {
                            Some((vs, e)) => Some((seq![variant] + vs, e)),
                            None => None,
                        }
                    } else {
                        Some((seq![variant], a))
                    }
                },
                None => None,
            }
        }
    }
}

/// Where the generic-parameter list `<T, ...>` that may follow `struct` at `p - 1` ends.
pub open spec fn after_generics(toks: Seq<Token>, p: int) -> Option<int> {
    if is_kind(toks, p, TokenKind::Less) {
        match types_at(toks, p + 1) {
            Some((_, r)) => if is_kind(toks, r, TokenKind::Greater) {
                Some(r + 1)
            } else {
                None
            },
            None => None,
        }
    } else {
        Some(p)
    }
}

/// `struct [<T, ...>] { fields }` at `pos`; the generic parameters are read and not kept.
pub open spec fn struct_at(toks: Seq<Token>, pos: int, name: String, sp: Span) -> Option<(StmtModel, int)> {
    if !is_kind(toks, pos, TokenKind::Struct) {
        None
    } else {
        match after_generics(toks, pos + 1) {
            Some(b) => if is_kind(toks, b, TokenKind::OpenBrace) {
                match fields_at(toks, b + 1) {
                    Some((fs, e)) => if is_kind(toks, e, TokenKind::CloseBrace) {
                        Some((StmtModel::Struct(name, seq![], fs, sp), e + 1))
                    } else {
                        None
                    },
                    None => None,
                }
            } else {
                None
            },
            None => None,
        }
    }
}

/// `enum [(Type)] { variants }` at `pos`.
pub open spec fn enum_at(toks: Seq<Token>, pos: int, name: String, sp: Span) -> Option<(StmtModel, int)> {
    if !is_kind(toks, pos, TokenKind::Enum) {
        None
    } else {
        let q = pos + 1;
        let backing: Option<(Option<Type>, int)> = if is_kind(toks, q, TokenKind::OpenParenthesis) {
            match type_at(toks, q + 1) {
                Some((t, r)) => if is_kind(toks, r, TokenKind::CloseParenthesis) {
                    Some((Some(t), r + 1))
                } else {
                    None
                },
                None => None,
            }
        } else {
            Some((None, q))
        };
        match backing {
            Some((bt, b)) => if is_kind(toks, b, TokenKind::OpenBrace) {
                match variants_at(toks, b + 1, bt is Some) {
                    Some((vs, e)) => if is_kind(toks, e, TokenKind::CloseBrace) {
                        match bt {
                            Some(t) => Some((StmtModel::TypedEnum(name, t, vs, sp), e + 1)),
                            None => Some((StmtModel::Enum(name, vs, sp), e + 1)),
                        }
                    } else {
                        None
                    },
                    None => None,
                }
            } else {
                None
            },
            None => None,
        }
    }
}

/// `union { types }` at `pos`.
pub open spec fn union_at(toks: Seq<Token>, pos: int, name: String, sp: Span) -> Option<(StmtModel, int)> {
    if is_kind(toks, pos, TokenKind::Union) && is_kind(toks, pos + 1, TokenKind::OpenBrace) {
        match members_at(toks, pos + 2) {
            Some((ts, e)) => if is_kind(toks, e, TokenKind::CloseBrace) {
                Some((StmtModel::Union(name, ts, sp), e + 1))
            } else {
                None
            },
            None => None,
        }
    } else {
        None
    }
}

/// The statement at `pos` and the position after it.
pub open spec fn statement_at(toks: Seq<Token>, pos: int) -> Option<(StmtModel, int)>
    decreases toks.len() - pos, 2nat,
{
    if pos < 0 || pos >= toks.len() {
        None
    } else {
        let sp = toks[pos].span;
        match toks[pos].kind {
            TokenKind::Identifier => identifier_at(toks, pos),
            TokenKind::Return => if is_kind(toks, pos + 1, TokenKind::Semicolon) {
                Some((StmtModel::Return(seq![], sp), pos + 2))
            } else {
                match exprs_at(toks, pos + 1) {
                    Some((es, e)) => if is_kind(toks, e, TokenKind::Semicolon) {
                        Some((StmtModel::Return(es, sp), e + 1))
                    } else {
                        None
                    },
                    None => None,
                }
            },
            TokenKind::Mut => mut_at(toks, pos),
            TokenKind::While => match expr_at(toks, pos + 1) {
                Some((c, p)) => if ahead(toks, pos, p) {
                    match block_at(toks, p) {
                        Some((b, e)) => Some((StmtModel::While(c, b, sp), e)),
                        None => None,
                    }
                } else {
                    None
                },
                None => None,
            },
            TokenKind::If => if pos + 1 >= toks.len() {
                None
            } else {
                match expr_at(toks, pos + 1) {
                    Some((c, p)) => if ahead(toks, pos, p) {
                        match block_at(toks, p) {
                            Some((a, q)) => if ahead(toks, pos, q) && is_kind(toks, q, TokenKind::Else) {
                                match block_at(toks, q + 1) {
                                    Some((b, e)) => Some((StmtModel::If(c, a, b, toks[pos + 1].span), e)),
                                    None => None,
                                }
                            } else {
                                Some((StmtModel::If(c, a, seq![], toks[pos + 1].span), q))
                            },
                            None => None,
                        }
                    } else {
                        None
                    },
                    None => None,
                }
            },
            _ => match expr_at(toks, pos) {
                Some((e, p)) => if is_kind(toks, p, TokenKind::Semicolon) {
                    Some((StmtModel::Expression(e, sp), p + 1))
                } else {
                    None
                },
                None => None,
            },
        }
    }
}

/// `value;` at `p`, completing a declaration of `name` with type `t`.
pub open spec fn declaration_end(toks: Seq<Token>, p: int) -> Option<(ExprModel, int)> {
    match expr_at(toks, p) {
        Some((v, q)) => if is_kind(toks, q, TokenKind::Semicolon) {
            Some((v, q + 1))
        } else {
            None
        },
        None => None,
    }
}

/// `mut name := e;` or `mut name: Type = e;` at `pos`.
pub open spec fn mut_at(toks: Seq<Token>, pos: int) -> Option<(StmtModel, int)> {
    if !word_at(toks, pos + 1) {
        None
    } else {
        let name = text_at(toks, pos + 1);
        let sp = toks[pos + 1].span;
        let p = pos + 2;
        let typed: Option<(Type, int)> = if is_kind(toks, p, TokenKind::ColonEquals) {
            Some((Type::AwaitingInference, p + 1))
        } else if !is_kind(toks, p, TokenKind::Colon) {
            None
        } else {
            match type_at(toks, p + 1) {
                Some((t, a)) => if is_kind(toks, a, TokenKind::Equal) {
                    Some((t, a + 1))
                } else {
                    None
                },
                None => None,
            }
        };
        match typed {
            Some((t, q)) => match declaration_end(toks, q) {
                Some((v, e)) => Some((StmtModel::MutableDeclaration(name, t, v, sp), e)),
                None => None,
            },
            None => None,
        }
    }
}

/// `fn (parameters) [-> types] { body }` at `pos` (see `parameters_at`).
pub open spec fn fn_at(toks: Seq<Token>, pos: int, name: String, sp: Span) -> Option<(StmtModel, int)>
    decreases toks.len() - pos, 0nat,
{
    if pos < 0 || !is_kind(toks, pos, TokenKind::Fn) || !is_kind(toks, pos + 1, TokenKind::OpenParenthesis) {
        None
    } else {
        match parameters_at(toks, pos + 2, None) {
            Some((ps, rc, e)) => if is_kind(toks, e, TokenKind::CloseParenthesis) {
                match return_types_at(toks, e + 1, sp) {
                    Some((rts, f)) => if ahead(toks, pos, f) {
                        match block_at(toks, f) {
                            Some((b, g)) => match rc {
                                Some(t) => Some((StmtModel::StructFunction(t, name, ps, rts, b, sp), g)),
                                None => Some((StmtModel::Function(name, ps, rts, b, sp), g)),
                            },
                            None => None,
                        }
                    } else {
                        None
                    },
                    None => None,
                }
            } else {
                None
            },
            None => None,
        }
    }
}

/// A statement led by a name at `pos`: `name :: ...` declarations (a namespace, struct, enum,
/// union, function, import, or else a constant), `name: T = e;`, `name := e;`, or an
/// expression statement.
pub open spec fn identifier_at(toks: Seq<Token>, pos: int) -> Option<(StmtModel, int)>
    decreases toks.len() - pos, 1nat,
{
    if pos < 0 || pos >= toks.len() {
        None
    } else {
        let sp = toks[pos].span;
        if is_kind(toks, pos + 1, TokenKind::DoubleColon) {
            if !word_at(toks, pos) {
                None
            } else {
                let name = text_at(toks, pos);
                let p = pos + 2;
                if is_kind(toks, p, TokenKind::Namespace) {
                    match block_at(toks, p + 1) {
                        Some((b, e)) => Some((StmtModel::Namespace(name, b, sp), e)),
                        None => None,
                    }
                } else if is_kind(toks, p, TokenKind::Struct) {
                    struct_at(toks, p, name, sp)
                } else if is_kind(toks, p, TokenKind::Enum) {
                    enum_at(toks, p, name, sp)
                } else if is_kind(toks, p, TokenKind::Union) {
                    union_at(toks, p, name, sp)
                } else if is_kind(toks, p, TokenKind::Fn) {
                    fn_at(toks, p, name, sp)
                } else if is_kind(toks, p, TokenKind::Import) {
                    if is_kind(toks, p + 1, TokenKind::StringLiteral) && toks[p + 1].literal is Some
                        && is_kind(toks, p + 2, TokenKind::Semicolon) {
                        Some((StmtModel::Import(name, text_at(toks, p + 1), sp), p + 3))
                    } else {
                        None
                    }
                } else {
                    match declaration_end(toks, p) {
                        Some((v, e)) => Some(
                            (StmtModel::ConstantDeclaration(name, Type::AwaitingInference, v, sp), e),
                        ),
                        None => None,
                    }
                }
            }
        } else if is_kind(toks, pos + 1, TokenKind::Colon) {
            if !word_at(toks, pos) {
                None
            } else {
                match type_at(toks, pos + 2) {
                    Some((t, q)) => if is_kind(toks, q, TokenKind::Equal) {
                        match declaration_end(toks, q + 1) {
                            Some((v, e)) => Some(
                                (StmtModel::VariableDeclaration(text_at(toks, pos), t, v, sp), e),
                            ),
                            None => None,
                        }
                    } else {
                        None
                    },
                    None => None,
                }
            }
        } else if is_kind(toks, pos + 1, TokenKind::ColonEquals) {
            if !word_at(toks, pos) {
                None
            } else {
                match declaration_end(toks, pos + 2) {
                    Some((v, e)) => Some(
                        (StmtModel::VariableDeclaration(text_at(toks, pos), Type::AwaitingInference, v, sp), e),
                    ),
                    None => None,
                }
            }
        } else {
            match declaration_end(toks, pos) {
                Some((v, e)) => Some((StmtModel::Expression(v, sp), e)),
                None => None,
            }
        }
    }
}

/// `{ statements }` at `pos`, and the position after the `}`.
pub open spec fn block_at(toks: Seq<Token>, pos: int) -> Option<(Seq<StmtModel>, int)>
    decreases toks.len() - pos, 3nat,
{
    if pos < 0 || pos >= toks.len() || !is_kind(toks, pos, TokenKind::OpenBrace) {
        None
    } else {
        match stmts_at(toks, pos + 1) {
            Some((ss, e)) => if is_kind(toks, e, TokenKind::CloseBrace) {
                Some((ss, e + 1))
            } else {
                None
            },
            None => None,
        }
    }
}

/// The statements from `p` up to the `}` that ends a block, and the position of that `}`.
pub open spec fn stmts_at(toks: Seq<Token>, p: int) -> Option<(Seq<StmtModel>, int)>
    decreases toks.len() - p, 4nat,
{
    if p < 0 || p >= toks.len() {
        None
    } else if is_kind(toks, p, TokenKind::CloseBrace) {
        Some((seq![], p))
    } else {
        match statement_at(toks, p) {
            Some((st, q)) => if ahead(toks, p, q) {
                match stmts_at(toks, q) {
                    Some((ss, e)) => Some((seq![st] + ss, e)),
                    None => None,
                }
            } else {
                None
            },
            None => None,
        }
    }
}

/// The program of `toks` from `pos` on: its statements, one after another to the end, or
/// `None` where one of them does not parse.
pub open spec fn program_from(toks: Seq<Token>, pos: int) -> Option<Seq<StmtModel>>
    decreases toks.len() - pos,
{
    if pos < 0 {
        None
    } else if pos >= toks.len() {
        Some(seq![])
    } else {
        match statement_at(toks, pos) {
            Some((st, p)) => if ahead(toks, pos, p) {
                match program_from(toks, p) {
                    Some(ss) => Some(seq![st] + ss),
                    None => None,
                }
            } else {
                None
            },
            None => None,
        }
    }
}

/// The program of a whole token sequence.
pub open spec fn program_at(toks: Seq<Token>) -> Option<Seq<StmtModel>> {
    program_from(toks, 0)
}

/// `r` is what parsing `toks` gives: the program where there is one, else one parse error.
pub open spec fn parse_outcome(toks: Seq<Token>, r: Result<Vec<Statement>, Vec<BlazeError>>) -> bool {
    match program_at(toks) {
        Some(m) => r is Ok && stmts_model(r->Ok_0@) == m,
        None => r is Err && r->Err_0@.len() == 1 && r->Err_0@[0] is ParseError,
    }
}

/// Parsing the same tokens twice gives the same outcome: both fail, or both succeed with
/// statement trees that are equal in every variant, name, type, expression and span.
pub proof fn lemma_parsing_is_deterministic(
    toks: Seq<Token>,
    r1: Result<Vec<Statement>, Vec<BlazeError>>,
    r2: Result<Vec<Statement>, Vec<BlazeError>>,
)
    requires
        parse_outcome(toks, r1),
        parse_outcome(toks, r2),
    ensures
        r1 is Ok <==> r2 is Ok,
        r1 is Ok ==> stmts_model(r1->Ok_0@) == stmts_model(r2->Ok_0@),
{
}

/// `r` is what the grammar gives for a statement.
pub open spec fn statement_parsed(spec: Option<(StmtModel, int)>, r: Result<(Statement, usize), BlazeError>) -> bool {
    match spec {
        Some((m, e)) => r is Ok && stmt_model(r->Ok_0.0) == m && r->Ok_0.1 == e,
        None => r is Err && r->Err_0 is ParseError,
    }
}

/// The binary operators, which all bind alike.
pub open spec fn is_operator(k: TokenKind) -> bool {
    k == TokenKind::Plus || k == TokenKind::Minus || k == TokenKind::Asterisk || k
        == TokenKind::Slash || k == TokenKind::Percent || k == TokenKind::EqualEqual || k
        == TokenKind::BangEqual || k == TokenKind::Greater || k == TokenKind::GreaterEqual || k
        == TokenKind::Less || k == TokenKind::LessEqual || k == TokenKind::PlusEquals || k
        == TokenKind::MinusEquals || k == TokenKind::AsteriskEquals || k == TokenKind::SlashEquals
        || k == TokenKind::PercentEquals
}

/// The value of a run of decimal digits.
pub open spec fn decimal_value(s: Seq<char>) -> int
    decreases s.len(),
{
    if s.len() == 0 {
        0
    } else {
        decimal_value(s.drop_last()) * 10 + (s.last() as int - '0' as int)
    }
}

pub open spec fn all_digits(s: Seq<char>) -> bool {
    forall|i: int| 0 <= i < s.len() ==> '0' <= #[trigger] s[i] && s[i] <= '9'
}

/// Builds the syntax tree from a token sequence by recursive descent.
pub struct Parser {
    pub tokens: Vec<Token>,
    pub errors: Vec<BlazeError>,
    pub statements: Vec<Statement>,
    pub current: usize,
}

fn parse_error(message: String, span: Span) -> (r: BlazeError)
    ensures
        r is ParseError,
{
    BlazeError::ParseError(message, span)
}

proof fn lemma_decimal_grows(s: Seq<char>, i: int)
    requires
        all_digits(s),
        0 <= i <= s.len(),
    ensures
        0 <= decimal_value(s.subrange(0, i)) <= decimal_value(s),
    decreases s.len(),
{
    if i == s.len() {
        assert(s.subrange(0, i) =~= s);
        if s.len() > 0 {
            lemma_decimal_grows(s.drop_last(), 0);
        }
    } else {
        let d = s.drop_last();
        assert(all_digits(d)) by {
            assert forall|j: int| 0 <= j < d.len() implies '0' <= #[trigger] d[j] && d[j] <= '9' by {
                assert(d[j] == s[j]);
            }
        }
        lemma_decimal_grows(d, i);
        lemma_decimal_grows(d, d.len() as int);
        assert(d.subrange(0, i) =~= s.subrange(0, i));
        assert(d.subrange(0, d.len() as int) =~= d);
        assert(s.last() == s[s.len() - 1]);
    }
}

/// The decimal value of `text`, exactly when it is a run of digits that fits an `i64`.
fn decimal(text: &String) -> (r: Option<i64>)
    ensures
        r is Some <==> all_digits(text@) && decimal_value(text@) <= i64::MAX,
        r is Some ==> r->0 == decimal_value(text@),
{
    let cs = chars_of(text);
    let mut v: u128 = 0;
    let mut i: usize = 0;
    while i < cs.len()
        invariant
            cs@ == text@,
            i <= cs@.len(),
            v <= i64::MAX,
            v == decimal_value(cs@.subrange(0, i as int)),
            all_digits(cs@.subrange(0, i as int)),
        decreases cs@.len() - i,
    {
        let c = cs[i];
        if c < '0' || c > '9' {
            proof {
                assert(!('0' <= text@[i as int] && text@[i as int] <= '9'));
            }
            return None;
        }
        let d = (c as u32 - '0' as u32) as u128;
        proof {
            let pre = cs@.subrange(0, i as int);
            let next = cs@.subrange(0, i as int + 1);
            assert(next.drop_last() =~= pre);
            assert(next.last() == c);
        }
        v = v * 10 + d;
        i = i + 1;
        proof {
            let next = cs@.subrange(0, i as int);
            assert forall|j: int| 0 <= j < next.len() implies '0' <= #[trigger] next[j] && next[j]
                <= '9' by {
                if j < i - 1 {
                    assert(next[j] == cs@.subrange(0, i - 1)[j]);
                }
            }
        }
        if v > i64::MAX as u128 {
            proof {
                if all_digits(text@) {
                    lemma_decimal_grows(text@, i as int);
                }
            }
            return None;
        }
    }
    proof {
        assert(cs@.subrange(0, i as int) =~= text@);
    }
    Some(v as i64)
}

/// `r` is what the grammar gives: the expression and the position after it where `spec` has
/// one, a parse error where it has none.
pub open spec fn expression_parsed(
    spec: Option<(ExprModel, int)>,
    r: Result<(Expression, usize), BlazeError>,
) -> bool {
    match spec {
        Some((m, e)) => r is Ok && expr_model(r->Ok_0.0) == m && r->Ok_0.1 == e,
        None => r is Err && r->Err_0 is ParseError,
    }
}

/// The values of a struct literal's initializers.
pub open spec fn initializers_model(fs: Seq<(Option<String>, Expression, Span)>) -> Seq<
    (Option<String>, ExprModel, Span),
> {
    Seq::new(fs.len(), |i: int| (fs[i].0, expr_model(fs[i].1), fs[i].2))
}

fn operator(k: TokenKind) -> (r: bool)
    ensures
        r == is_operator(k),
{
    k == TokenKind::Plus || k == TokenKind::Minus || k == TokenKind::Asterisk || k
        == TokenKind::Slash || k == TokenKind::Percent || k == TokenKind::EqualEqual || k
        == TokenKind::BangEqual || k == TokenKind::Greater || k == TokenKind::GreaterEqual || k
        == TokenKind::Less || k == TokenKind::LessEqual || k == TokenKind::PlusEquals || k
        == TokenKind::MinusEquals || k == TokenKind::AsteriskEquals || k == TokenKind::SlashEquals
        || k == TokenKind::PercentEquals
}

impl Parser {
    /// A parser over `tokens`; line breaks are dropped, since the grammar ends statements
    /// with `;`.
    pub fn new(tokens: Vec<Token>) -> (r: Parser)
        ensures
            r.tokens@ == without_newlines(tokens@),
            r.errors@.len() == 0,
            r.statements@.len() == 0,
            r.current == 0,
    {
        let mut kept: Vec<Token> = Vec::new();
        let mut i: usize = 0;
        while i < tokens.len()
            invariant
                i <= tokens@.len(),
                kept@ == without_newlines(tokens@.subrange(0, i as int)),
            decreases tokens@.len() - i,
        {
            proof {
                let next = tokens@.subrange(0, i as int + 1);
                assert(next.drop_last() =~= tokens@.subrange(0, i as int));
                assert(next.last() == tokens@[i as int]);
            }
            if tokens[i].kind != TokenKind::Newline {
                kept.push(tokens[i].duplicate());
            }
            i = i + 1;
        }
        proof {
            assert(tokens@.subrange(0, i as int) =~= tokens@);
        }
        Parser { tokens: kept, errors: Vec::new(), statements: Vec::new(), current: 0 }
    }

    fn end_of_file(&self) -> (r: BlazeError)
        ensures
            r is ParseError,
    {
        let n = self.tokens.len();
        let span = if n > 0 {
            self.tokens[n - 1].span.duplicate()
        } else {
            Span { filename: String::new(), start: 0, end: 0 }
        };
        parse_error(String::from_str("unexpected end of file"), span)
    }

    /// Whether token `pos` exists and is of kind `kind`.
    fn check(&self, pos: usize, kind: TokenKind) -> (r: bool)
        ensures
            r == is_kind(self.tokens@, pos as int, kind),
    {
        pos < self.tokens.len() && self.tokens[pos].kind == kind
    }

    /// The kind of token `pos`; past the end, an end-of-file error.
    fn kind_at(&self, pos: usize) -> (r: Result<TokenKind, BlazeError>)
        ensures
            pos < self.tokens@.len() ==> r == Ok::<TokenKind, BlazeError>(
                self.tokens@[pos as int].kind,
            ),
            pos >= self.tokens@.len() ==> r is Err && r->Err_0 is ParseError,
    {
        if pos < self.tokens.len() {
            Ok(self.tokens[pos].kind)
        } else {
            Err(self.end_of_file())
        }
    }

    /// The span of token `pos`; past the end, an end-of-file error.
    fn span_at(&self, pos: usize) -> (r: Result<Span, BlazeError>)
        ensures
            pos < self.tokens@.len() ==> r == Ok::<Span, BlazeError>(
                self.tokens@[pos as int].span,
            ),
            pos >= self.tokens@.len() ==> r is Err && r->Err_0 is ParseError,
    {
        if pos < self.tokens.len() {
            Ok(self.tokens[pos].span.duplicate())
        } else {
            Err(self.end_of_file())
        }
    }

    /// Consumes token `pos` if it is of kind `kind`.
    fn expect(&self, pos: usize, kind: TokenKind) -> (r: Result<usize, BlazeError>)
        requires
            pos <= self.tokens@.len(),
        ensures
            is_kind(self.tokens@, pos as int, kind) ==> r == Ok::<usize, BlazeError>((pos + 1) as usize),
            !is_kind(self.tokens@, pos as int, kind) ==> r is Err && r->Err_0 is ParseError,
    {
        if pos >= self.tokens.len() {
            return Err(self.end_of_file());
        }
        let t = &self.tokens[pos];
        if t.kind != kind {
            let message = String::from_str("unexpected token: ").concat(t.kind.describe()).concat(
                ", expected: ",
            ).concat(kind.describe());
            return Err(parse_error(message, t.span.duplicate()));
        }
        Ok(pos + 1)
    }

    /// Consumes token `pos` if it is of kind `kind` and carries text; returns the text.
    fn expect_text(&self, pos: usize, kind: TokenKind) -> (r: Result<(String, usize), BlazeError>)
        requires
            pos <= self.tokens@.len(),
        ensures
            is_kind(self.tokens@, pos as int, kind) && self.tokens@[pos as int].literal is Some
                ==> r == Ok::<(String, usize), BlazeError>((text_at(self.tokens@, pos as int), (pos + 1) as usize)),
            !(is_kind(self.tokens@, pos as int, kind) && self.tokens@[pos as int].literal is Some)
                ==> r is Err && r->Err_0 is ParseError,
    {
        let next = match self.expect(pos, kind) {
            Ok(p) => p,
            Err(e) => return Err(e),
        };
        match &self.tokens[pos].literal {
            Some(text) => Ok((text.clone(), next)),
            None => Err(
                parse_error(String::from_str("token carries no text"), self.tokens[pos].span.duplicate()),
            ),
        }
    }

    /// Parses a type at `pos` (see `type_at`).
    fn parse_type(&self, pos: usize) -> (r: Result<(Type, usize), BlazeError>)
        requires
            pos <= self.tokens@.len(),
        ensures
            match type_at(self.tokens@, pos as int) {
                Some((t, e)) => pos < e <= self.tokens@.len() && r == Ok::<(Type, usize), BlazeError>(
                    (t, e as usize),
                ),
                None => r is Err && r->Err_0 is ParseError,
            },
        decreases self.tokens@.len() - pos,
    {
        let n = self.tokens.len();
        let kind = match self.kind_at(pos) {
            Ok(k) => k,
            Err(e) => return Err(e),
        };
        let span = self.tokens[pos].span.duplicate();
        match kind {
            TokenKind::I8 => Ok((Type::I8(span), pos + 1)),
            TokenKind::I16 => Ok((Type::I16(span), pos + 1)),
            TokenKind::I32 => Ok((Type::I32(span), pos + 1)),
            TokenKind::I64 => Ok((Type::I64(span), pos + 1)),
            TokenKind::U8 => Ok((Type::U8(span), pos + 1)),
            TokenKind::U16 => Ok((Type::U16(span), pos + 1)),
            TokenKind::U32 => Ok((Type::U32(span), pos + 1)),
            TokenKind::U64 => Ok((Type::U64(span), pos + 1)),
            TokenKind::F32 => Ok((Type::F32(span), pos + 1)),
            TokenKind::F64 => Ok((Type::F64(span), pos + 1)),
            TokenKind::Bool => Ok((Type::Bool(span), pos + 1)),
            TokenKind::Char => Ok((Type::Char(span), pos + 1)),
            TokenKind::Void => Ok((Type::Void(span), pos + 1)),
            TokenKind::Asterisk => match self.parse_type(pos + 1) {
                Ok((t, e)) => Ok((Type::Pointer(Box::new(t), span), e)),
                Err(e) => Err(e),
            },
            TokenKind::OpenBracket => {
                let p = match self.expect(pos + 1, TokenKind::CloseBracket) {
                    Ok(p) => p,
                    Err(e) => return Err(e),
                };
                match self.parse_type(p) {
                    Ok((t, e)) => Ok((Type::Array(Box::new(t), span), e)),
                    Err(e) => Err(e),
                }
            },
            TokenKind::QuestionMark => match self.parse_type(pos + 1) {
                Ok((t, e)) => Ok((Type::Optional(Box::new(t), span), e)),
                Err(e) => Err(e),
            },
            TokenKind::Dollar => match self.expect_text(pos + 1, TokenKind::Identifier) {
                Ok((name, e)) => Ok((Type::Generic(name, span), e)),
                Err(e) => Err(e),
            },
            _ => match self.expect_text(pos, TokenKind::Identifier) {
                Ok((name, e)) => Ok((Type::Unknown(name, span), e)),
                Err(e) => Err(e),
            },
        }
    }

    /// Parses an expression at `pos` (see `expr_at`).
    fn parse_expression(&self, pos: usize) -> (r: Result<(Expression, usize), BlazeError>)
        requires
            pos <= self.tokens@.len(),
        ensures
            expression_parsed(expr_at(self.tokens@, pos as int), r),
            match r {
                Ok((_, q)) => pos < q <= self.tokens@.len(),
                Err(_) => true,
            },
        decreases self.tokens@.len() - pos, 3nat,
    {
        self.parse_member_access(pos)
    }

    /// `a.b` and `a::b` (see `member_at`).
    fn parse_member_access(&self, pos: usize) -> (r: Result<(Expression, usize), BlazeError>)
        requires
            pos <= self.tokens@.len(),
        ensures
            expression_parsed(member_at(self.tokens@, pos as int), r),
            match r {
                Ok((_, q)) => pos < q <= self.tokens@.len(),
                Err(_) => true,
            },
        decreases self.tokens@.len() - pos, 2nat,
    {
        let n = self.tokens.len();
        let ghost toks = self.tokens@;
        if pos >= n {
            return Err(self.end_of_file());
        }
        let span = self.tokens[pos].span.duplicate();
        let (mut expression, mut p) = match self.parse_binary_operation(pos) { Ok(v) => v, Err(e) => return Err(e) };
        while self.check(p, TokenKind::Dot) || self.check(p, TokenKind::DoubleColon)
            invariant
                n == self.tokens@.len(),
                toks == self.tokens@,
                pos < p <= n,
                pos < n,
                span == toks[pos as int].span,
                member_at(toks, pos as int) == member_rest(toks, span, expr_model(expression), p as int),
            decreases n - p,
        {
            let is_static = self.check(p, TokenKind::DoubleColon);
            let (member, next) = match self.parse_expression(p + 1) { Ok(v) => v, Err(e) => return Err(e) };
            expression = if is_static {
                Expression::StaticMemberAccess(Box::new(expression), Box::new(member), span.duplicate())
            } else {
                Expression::MemberAccess(Box::new(expression), Box::new(member), span.duplicate())
            };
            p = next;
        }
        Ok((expression, p))
    }

    /// A primary, then operators each with a whole expression after it (see `binary_at`).
    fn parse_binary_operation(&self, pos: usize) -> (r: Result<(Expression, usize), BlazeError>)
        requires
            pos <= self.tokens@.len(),
        ensures
            expression_parsed(binary_at(self.tokens@, pos as int), r),
            match r {
                Ok((_, q)) => pos < q <= self.tokens@.len(),
                Err(_) => true,
            },
        decreases self.tokens@.len() - pos, 1nat,
    {
        let n = self.tokens.len();
        let ghost toks = self.tokens@;
        if pos >= n {
            return Err(self.end_of_file());
        }
        let span = self.tokens[pos].span.duplicate();
        let (mut expression, mut p) = match self.parse_primary(pos) { Ok(v) => v, Err(e) => return Err(e) };
        while p < n && operator(self.tokens[p].kind)
            invariant
                n == self.tokens@.len(),
                toks == self.tokens@,
                pos < p <= n,
                pos < n,
                span == toks[pos as int].span,
                binary_at(toks, pos as int) == binary_rest(toks, span, expr_model(expression), p as int),
            decreases n - p,
        {
            let op = self.tokens[p].kind;
            let (right, next) = match self.parse_expression(p + 1) { Ok(v) => v, Err(e) => return Err(e) };
            expression = Expression::BinaryOperation(
                Box::new(expression),
                op,
                Box::new(right),
                span.duplicate(),
            );
            p = next;
        }
        Ok((expression, p))
    }

    /// A character literal at `pos`, whose text must be one character.
    fn parse_char_literal(&self, pos: usize) -> (r: Result<(Expression, usize), BlazeError>)
        requires
            pos < self.tokens@.len(),
            self.tokens@[pos as int].kind == TokenKind::CharLiteral,
        ensures
            expression_parsed(primary_at(self.tokens@, pos as int), r),
    {
        let n = self.tokens.len();
        let span = self.tokens[pos].span.duplicate();
        let (text, p) = match self.expect_text(pos, TokenKind::CharLiteral) { Ok(v) => v, Err(e) => return Err(e) };
        let cs = chars_of(&text);
        if cs.len() == 1 {
            let c = cs[0];
            proof {
                assert(c == text@[0]);
                lemma_char_model(c, span);
                assert(text == text_at(self.tokens@, pos as int));
                assert(text_at(self.tokens@, pos as int)@.len() == 1);
                assert(self.tokens@[pos as int].literal is Some);
                assert(primary_at(self.tokens@, pos as int) == Some((ExprModel::Char(c, span), pos + 1)));
            }
            let res = Ok((Expression::Char(c, span), p));
            assert(expression_parsed(primary_at(self.tokens@, pos as int), res));
            res
        } else {
            assert(text@.len() != 1);
            assert(primary_at(self.tokens@, pos as int) is None);
            Err(parse_error(String::from_str("invalid character literal"), span))
        }
    }

    /// A primary expression at `pos` (see `primary_at`).
    fn parse_primary(&self, pos: usize) -> (r: Result<(Expression, usize), BlazeError>)
        requires
            pos <= self.tokens@.len(),
        ensures
            expression_parsed(primary_at(self.tokens@, pos as int), r),
            match r {
                Ok((_, q)) => pos < q <= self.tokens@.len(),
                Err(_) => true,
            },
        decreases self.tokens@.len() - pos, 0nat,
    {
        let n = self.tokens.len();
        let ghost toks = self.tokens@;
        let kind = match self.kind_at(pos) { Ok(v) => v, Err(e) => return Err(e) };
        let span = self.tokens[pos].span.duplicate();
        match kind {
            TokenKind::Identifier => {
                let (name, p) = match self.expect_text(pos, TokenKind::Identifier) { Ok(v) => v, Err(e) => return Err(e) };
                if self.check(p, TokenKind::OpenBracket) {
                    let (index, q) = match self.parse_expression(p + 1) { Ok(v) => v, Err(e) => return Err(e) };
                    let end = match self.expect(q, TokenKind::CloseBracket) { Ok(v) => v, Err(e) => return Err(e) };
                    assert(primary_at(toks, pos as int) == Some((expr_model(Expression::ArrayAccess(name, Box::new(index), span)), end as int)));
                    Ok((Expression::ArrayAccess(name, Box::new(index), span), end))
                } else if self.check(p, TokenKind::OpenBrace) {
                    let mut fields: Vec<(Option<String>, Expression, Span)> = Vec::new();
                    let mut q = p + 1;
                    let ghost start = q as int;
                    let mut ended = false;
                    while !ended && !self.check(q, TokenKind::CloseBrace)
                        invariant
                            n == self.tokens@.len(),
                            toks == self.tokens@,
                            start == pos + 2,
                            pos < q <= n,
                            primary_at(toks, pos as int) == match literal_fields_at(toks, start) {
                                Some((fs, e)) => if is_kind(toks, e, TokenKind::CloseBrace) {
                                    Some((ExprModel::StructLiteral(name, fs, span), e + 1))
                                } else {
                                    None
                                },
                                None => None,
                            },
                            !ended ==> literal_fields_at(toks, start) == match literal_fields_at(toks, q as int) {
                                Some((fs, e)) => Some((initializers_model(fields@) + fs, e)),
                                None => None::<(Seq<(Option<String>, ExprModel, Span)>, int)>,
                            },
                            ended ==> literal_fields_at(toks, start) == Some((initializers_model(fields@), q as int)),
                        decreases n - q, if ended { 0nat } else { 1nat },
                    {
                        let field_span = match self.span_at(q) { Ok(v) => v, Err(e) => return Err(e) };
                        let mut field_name: Option<String> = None;
                        let mut start_value = q;
                        if self.check(q + 1, TokenKind::Colon) {
                            let (f, after) = match self.expect_text(q, TokenKind::Identifier) { Ok(v) => v, Err(e) => return Err(e) };
                            field_name = Some(f);
                            start_value = after + 1;
                        }
                        let (value, after) = match self.parse_expression(start_value) { Ok(v) => v, Err(e) => return Err(e) };
                        let ghost before = fields@;
                        let ghost entry = (field_name, expr_model(value), field_span);
                        fields.push((field_name, value, field_span));
                        proof {
                            assert(initializers_model(fields@) =~= initializers_model(before).push(entry));
                        }
                        if self.check(after, TokenKind::Comma) {
                            proof {
                                match literal_fields_at(toks, after + 1) {
                                    Some((fs, e)) => {
                                        assert(initializers_model(fields@) + fs =~= initializers_model(before) + (seq![entry] + fs));
                                    },
                                    None => {},
                                }
                            }
                            q = after + 1;
                        } else {
                            proof {
                                assert(initializers_model(fields@) =~= initializers_model(before) + seq![entry]);
                            }
                            q = after;
                            ended = true;
                        }
                    }
                    proof {
                        if !ended {
                            assert(initializers_model(fields@) + seq![] =~= initializers_model(fields@));
                        }
                    }
                    let end = match self.expect(q, TokenKind::CloseBrace) { Ok(v) => v, Err(e) => return Err(e) };
                    let ghost name_copy = name;
                    let ghost span_copy = span;
                    let e = Expression::StructLiteral(name, fields, span);
                    proof {
                        let fs = match expr_model(e) {
                            ExprModel::StructLiteral(_, fs, _) => fs,
                            _ => seq![],
                        };
                        assert(fs =~= initializers_model(fields@));
                        assert(expr_model(e) == ExprModel::StructLiteral(name_copy, initializers_model(fields@), span_copy));
                        assert(literal_fields_at(toks, start) == Some((initializers_model(fields@), q as int)));
                        assert(primary_at(toks, pos as int) == Some((expr_model(e), end as int)));
                    }
                    Ok((e, end))
                } else {
                    assert(primary_at(toks, pos as int) == Some((ExprModel::Identifier(name, span), p as int)));
                    Ok((Expression::Identifier(name, span), p))
                }
            },
            TokenKind::IntegerLiteral => {
                let (text, p) = match self.expect_text(pos, TokenKind::IntegerLiteral) { Ok(v) => v, Err(e) => return Err(e) };
                match decimal(&text) {
                    Some(v) => {
                        assert(v == decimal_value(text@) as i64);
                        { let res = Ok((Expression::Integer(v, span), p)); assert(expression_parsed(primary_at(toks, pos as int), res)); res }
                    },
                    None => { let res = Err(parse_error(String::from_str("integer literal out of range"), span)); assert(expression_parsed(primary_at(toks, pos as int), res)); res },
                }
            },
            TokenKind::CharLiteral => self.parse_char_literal(pos),
            TokenKind::StringLiteral => {
                let (text, p) = match self.expect_text(pos, TokenKind::StringLiteral) { Ok(v) => v, Err(e) => return Err(e) };
                { let res = Ok((Expression::String(text, span), p)); assert(expression_parsed(primary_at(toks, pos as int), res)); res }
            },
            TokenKind::SelfKeyword => {
                assert(primary_at(toks, pos as int) == Some((ExprModel::SelfLiteral(span), pos + 1)));
                Ok((Expression::SelfLiteral(span), pos + 1))
            },
            TokenKind::Null => { let res = Ok((Expression::Null(span), pos + 1)); assert(expression_parsed(primary_at(toks, pos as int), res)); res },
            TokenKind::Ampersand => match self.parse_expression(pos + 1) {
                Ok((e, p)) => { let res = Ok((Expression::AddressOf(Box::new(e), span), p)); assert(expression_parsed(primary_at(toks, pos as int), res)); res },
                Err(e) => Err(e),
            },
            TokenKind::Asterisk => match self.parse_expression(pos + 1) {
                Ok((e, p)) => Ok((Expression::Dereference(Box::new(e), span), p)),
                Err(e) => Err(e),
            },
            TokenKind::Try => match self.parse_expression(pos + 1) {
                Ok((e, p)) => Ok((Expression::Try(Box::new(e), span), p)),
                Err(e) => Err(e),
            },
            _ => {
                let message = String::from_str("expected expression, but got ").concat(
                    kind.describe(),
                );
                { let res = Err(parse_error(message, span)); assert(expression_parsed(primary_at(toks, pos as int), res)); res }
            },
        }
    }

    /// `{ statement* }` at `pos` (see `block_at`).
    fn parse_block(&self, pos: usize) -> (r: Result<(Vec<Statement>, usize), BlazeError>)
        requires
            pos <= self.tokens@.len(),
        ensures
            match block_at(self.tokens@, pos as int) {
                Some((m, e)) => r is Ok && stmts_model(r->Ok_0.0@) == m && r->Ok_0.1 == e,
                None => r is Err && r->Err_0 is ParseError,
            },
            match r {
                Ok((_, q)) => pos < q <= self.tokens@.len(),
                Err(_) => true,
            },
        decreases self.tokens@.len() - pos, 3nat,
    {
        let n = self.tokens.len();
        let ghost toks = self.tokens@;
        if pos >= n {
            return Err(self.end_of_file());
        }
        let mut p = match self.expect(pos, TokenKind::OpenBrace) { Ok(v) => v, Err(e) => return Err(e) };
        let ghost start = p as int;
        let mut statements: Vec<Statement> = Vec::new();
        while !self.check(p, TokenKind::CloseBrace)
            invariant
                n == self.tokens@.len(),
                toks == self.tokens@,
                pos < p <= n,
                start == pos + 1,
                block_at(toks, pos as int) == match stmts_at(toks, start) {
                    Some((ss, e)) => if is_kind(toks, e, TokenKind::CloseBrace) {
                        Some((ss, e + 1))
                    } else {
                        None
                    },
                    None => None,
                },
                stmts_at(toks, start) == match stmts_at(toks, p as int) {
                    Some((ss, e)) => Some((stmts_model(statements@) + ss, e)),
                    None => None::<(Seq<StmtModel>, int)>,
                },
            decreases n - p,
        {
            let (statement, next) = match self.parse_statement(p) { Ok(v) => v, Err(e) => return Err(e) };
            let ghost before = statements@;
            statements.push(statement);
            proof {
                assert(stmts_model(statements@) =~= stmts_model(before).push(stmt_model(statement)));
                match stmts_at(toks, next as int) {
                    Some((ss, e)) => {
                        assert(stmts_model(statements@) + ss =~= stmts_model(before) + (seq![stmt_model(statement)] + ss));
                    },
                    None => {},
                }
            }
            p = next;
        }
        proof {
            assert(stmts_model(statements@) + seq![] =~= stmts_model(statements@));
        }
        let end = match self.expect(p, TokenKind::CloseBrace) { Ok(v) => v, Err(e) => return Err(e) };
        Ok((statements, end))
    }

    /// One statement at `pos` (see `statement_at`).
    fn parse_statement(&self, pos: usize) -> (r: Result<(Statement, usize), BlazeError>)
        requires
            pos <= self.tokens@.len(),
        ensures
            statement_parsed(statement_at(self.tokens@, pos as int), r),
            match r {
                Ok((_, q)) => pos < q <= self.tokens@.len(),
                Err(_) => true,
            },
        decreases self.tokens@.len() - pos, 2nat,
    {
        let n = self.tokens.len();
        let kind = match self.kind_at(pos) { Ok(v) => v, Err(e) => return Err(e) };
        match kind {
            TokenKind::Identifier => self.parse_identifier(pos),
            TokenKind::Return => self.parse_return(pos),
            TokenKind::Mut => self.parse_mut(pos),
            TokenKind::While => self.parse_while(pos),
            TokenKind::If => self.parse_if(pos),
            _ => {
                let span = self.tokens[pos].span.duplicate();
                let (expression, p) = match self.parse_expression(pos) { Ok(v) => v, Err(e) => return Err(e) };
                let end = match self.expect(p, TokenKind::Semicolon) { Ok(v) => v, Err(e) => return Err(e) };
                Ok((Statement::Expression(expression, span), end))
            },
        }
    }

    /// `value;` at `pos`, the end of a declaration (see `declaration_end`).
    fn parse_declaration_end(&self, pos: usize) -> (r: Result<(Expression, usize), BlazeError>)
        requires
            pos <= self.tokens@.len(),
        ensures
            match declaration_end(self.tokens@, pos as int) {
                Some((m, e)) => r is Ok && expr_model(r->Ok_0.0) == m && r->Ok_0.1 == e,
                None => r is Err && r->Err_0 is ParseError,
            },
            match r {
                Ok((_, q)) => pos < q <= self.tokens@.len(),
                Err(_) => true,
            },
    {
        let n = self.tokens.len();
        let (value, q) = match self.parse_expression(pos) { Ok(v) => v, Err(e) => return Err(e) };
        let end = match self.expect(q, TokenKind::Semicolon) { Ok(v) => v, Err(e) => return Err(e) };
        Ok((value, end))
    }

    /// A statement led by a name (see `identifier_at`).
    fn parse_identifier(&self, pos: usize) -> (r: Result<(Statement, usize), BlazeError>)
        requires
            pos <= self.tokens@.len(),
            is_kind(self.tokens@, pos as int, TokenKind::Identifier),
        ensures
            statement_parsed(identifier_at(self.tokens@, pos as int), r),
            match r {
                Ok((_, q)) => pos < q <= self.tokens@.len(),
                Err(_) => true,
            },
        decreases self.tokens@.len() - pos, 1nat,
    {
        let n = self.tokens.len();
        let ghost toks = self.tokens@;
        let span = self.tokens[pos].span.duplicate();
        if self.check(pos + 1, TokenKind::DoubleColon) {
            let (name, p) = match self.expect_text(pos, TokenKind::Identifier) { Ok(v) => v, Err(e) => return Err(e) };
            let p = p + 1;
            if self.check(p, TokenKind::Namespace) {
                let (body, end) = match self.parse_block(p + 1) { Ok(v) => v, Err(e) => return Err(e) };
                let st = Statement::Namespace(name, body, span);
                proof {
                    if let StmtModel::Namespace(_, b, _) = stmt_model(st) {
                        assert(b =~= stmts_model(body@));
                    }
                }
                Ok((st, end))
            } else if self.check(p, TokenKind::Struct) {
                self.parse_struct(name, span, p)
            } else if self.check(p, TokenKind::Enum) {
                self.parse_enum(name, span, p)
            } else if self.check(p, TokenKind::Union) {
                self.parse_union(name, span, p)
            } else if self.check(p, TokenKind::Fn) {
                self.parse_fn(name, span, p)
            } else if self.check(p, TokenKind::Import) {
                let (path, q) = match self.expect_text(p + 1, TokenKind::StringLiteral) { Ok(v) => v, Err(e) => return Err(e) };
                let end = match self.expect(q, TokenKind::Semicolon) { Ok(v) => v, Err(e) => return Err(e) };
                Ok((Statement::Import(name, path, span), end))
            } else {
                let (value, end) = match self.parse_declaration_end(p) { Ok(v) => v, Err(e) => return Err(e) };
                Ok((Statement::ConstantDeclaration(name, Type::AwaitingInference, value, span), end))
            }
        } else if self.check(pos + 1, TokenKind::Colon) {
            let (name, p) = match self.expect_text(pos, TokenKind::Identifier) { Ok(v) => v, Err(e) => return Err(e) };
            let (ty, q) = match self.parse_type(p + 1) { Ok(v) => v, Err(e) => return Err(e) };
            let q = match self.expect(q, TokenKind::Equal) { Ok(v) => v, Err(e) => return Err(e) };
            let (value, end) = match self.parse_declaration_end(q) { Ok(v) => v, Err(e) => return Err(e) };
            Ok((Statement::VariableDeclaration(name, ty, value, span), end))
        } else if self.check(pos + 1, TokenKind::ColonEquals) {
            let (name, p) = match self.expect_text(pos, TokenKind::Identifier) { Ok(v) => v, Err(e) => return Err(e) };
            let (value, end) = match self.parse_declaration_end(p + 1) { Ok(v) => v, Err(e) => return Err(e) };
            Ok((Statement::VariableDeclaration(name, Type::AwaitingInference, value, span), end))
        } else {
            let (value, end) = match self.parse_declaration_end(pos) { Ok(v) => v, Err(e) => return Err(e) };
            Ok((Statement::Expression(value, span), end))
        }
    }

    /// `struct [<T, ...>] { name: Type, ... }` at `pos` (see `struct_at`); the generic
    /// parameters are read and not kept.
    fn parse_struct(&self, name: String, span: Span, pos: usize) -> (r: Result<(Statement, usize), BlazeError>)
        requires
            pos <= self.tokens@.len(),
        ensures
            statement_parsed(struct_at(self.tokens@, pos as int, name, span), r),
            match r {
                Ok((_, q)) => pos < q <= self.tokens@.len(),
                Err(_) => true,
            },
    {
        let n = self.tokens.len();
        let ghost toks = self.tokens@;
        let mut p = match self.expect(pos, TokenKind::Struct) { Ok(v) => v, Err(e) => return Err(e) };
        if self.check(p, TokenKind::Less) {
            let ghost list_start = p as int + 1;
            let (first, q) = match self.parse_type(p + 1) { Ok(v) => v, Err(e) => return Err(e) };
            let ghost mut written: Seq<Type> = seq![first];
            p = q;
            while self.check(p, TokenKind::Comma)
                invariant
                    n == self.tokens@.len(),
                    toks == self.tokens@,
                    pos < p <= n,
                    is_kind(toks, pos as int, TokenKind::Struct),
                    list_start == pos + 2,
                    is_kind(toks, pos as int + 1, TokenKind::Less),
                    types_at(toks, list_start) == if is_kind(toks, p as int, TokenKind::Comma) {
                        match types_at(toks, p + 1) {
                            Some((ts, e)) => Some((written + ts, e)),
                            None => None::<(Seq<Type>, int)>,
                        }
                    } else {
                        Some((written, p as int))
                    },
                decreases n - p,
            {
                let ghost before = written;
                let (next, q) = match self.parse_type(p + 1) { Ok(v) => v, Err(e) => return Err(e) };
                proof {
                    written = written.push(next);
                    if is_kind(toks, q as int, TokenKind::Comma) {
                        match types_at(toks, q + 1) {
                            Some((ts, e)) => {
                                assert(written + ts =~= before + (seq![next] + ts));
                            },
                            None => {},
                        }
                    } else {
                        assert(written =~= before + seq![next]);
                    }
                }
                p = q;
            }
            p = match self.expect(p, TokenKind::Greater) { Ok(v) => v, Err(e) => return Err(e) };
        }
        let ghost brace = p as int;
        proof {
            assert(after_generics(toks, pos as int + 1) == Some(brace));
        }
        p = match self.expect(p, TokenKind::OpenBrace) { Ok(v) => v, Err(e) => return Err(e) };
        let ghost start = p as int;
        let mut fields: Vec<StructField> = Vec::new();
        let mut ended = false;
        while !ended && !self.check(p, TokenKind::CloseBrace)
            invariant
                n == self.tokens@.len(),
                toks == self.tokens@,
                pos < p <= n,
                start == brace + 1,
                is_kind(toks, pos as int, TokenKind::Struct),
                after_generics(toks, pos as int + 1) == Some(brace),
                is_kind(toks, brace, TokenKind::OpenBrace),
                !ended ==> fields_at(toks, start) == match fields_at(toks, p as int) {
                    Some((fs, e)) => Some((fields@ + fs, e)),
                    None => None::<(Seq<StructField>, int)>,
                },
                ended ==> fields_at(toks, start) == Some((fields@, p as int)),
            decreases n - p, if ended { 0nat } else { 1nat },
        {
            let field_span = match self.span_at(p) { Ok(v) => v, Err(e) => return Err(e) };
            let (field, q) = match self.expect_text(p, TokenKind::Identifier) { Ok(v) => v, Err(e) => return Err(e) };
            let q = match self.expect(q, TokenKind::Colon) { Ok(v) => v, Err(e) => return Err(e) };
            let (ty, q) = match self.parse_type(q) { Ok(v) => v, Err(e) => return Err(e) };
            let ghost f = StructField { name: field, ty, span: field_span };
            let ghost before = fields@;
            fields.push(StructField { name: field, ty, span: field_span });
            proof {
                assert(fields@ == before.push(f));
            }
            if self.check(q, TokenKind::Comma) {
                proof {
                    match fields_at(toks, q + 1) {
                        Some((fs, e)) => {
                            assert(fields@ + fs =~= before + (seq![f] + fs));
                        },
                        None => {},
                    }
                }
                p = q + 1;
            } else {
                proof {
                    assert(fields@ =~= before + seq![f]);
                }
                p = q;
                ended = true;
            }
        }
        proof {
            if !ended {
                assert(fields@ + seq![] =~= fields@);
            }
        }
        let end = match self.expect(p, TokenKind::CloseBrace) { Ok(v) => v, Err(e) => return Err(e) };
        let generics: Vec<String> = Vec::new();
        proof {
            assert(generics@ =~= seq![]);
        }
        Ok((Statement::Struct(name, generics, fields, span), end))
    }

    /// `enum [(Type)] { Variant [= expr], ... }` at `pos` (see `enum_at`); a value needs a
    /// backing type.
    fn parse_enum(&self, name: String, span: Span, pos: usize) -> (r: Result<(Statement, usize), BlazeError>)
        requires
            pos <= self.tokens@.len(),
        ensures
            statement_parsed(enum_at(self.tokens@, pos as int, name, span), r),
            match r {
                Ok((_, q)) => pos < q <= self.tokens@.len(),
                Err(_) => true,
            },
    {
        let n = self.tokens.len();
        let ghost toks = self.tokens@;
        let mut p = match self.expect(pos, TokenKind::Enum) { Ok(v) => v, Err(e) => return Err(e) };
        let mut backing: Option<Type> = None;
        if self.check(p, TokenKind::OpenParenthesis) {
            let (ty, q) = match self.parse_type(p + 1) { Ok(v) => v, Err(e) => return Err(e) };
            backing = Some(ty);
            p = match self.expect(q, TokenKind::CloseParenthesis) { Ok(v) => v, Err(e) => return Err(e) };
        }
        let ghost brace = p as int;
        p = match self.expect(p, TokenKind::OpenBrace) { Ok(v) => v, Err(e) => return Err(e) };
        let ghost start = p as int;
        let typed = backing.is_some();
        let mut variants: Vec<EnumVariant> = Vec::new();
        let mut ended = false;
        while !ended && !self.check(p, TokenKind::CloseBrace)
            invariant
                n == self.tokens@.len(),
                toks == self.tokens@,
                pos < p <= n,
                start == brace + 1,
                typed == backing is Some,
                enum_at(toks, pos as int, name, span) == match variants_at(toks, start, typed) {
                    Some((vs, e)) => if is_kind(toks, e, TokenKind::CloseBrace) {
                        match backing {
                            Some(t) => Some((StmtModel::TypedEnum(name, t, vs, span), e + 1)),
                            None => Some((StmtModel::Enum(name, vs, span), e + 1)),
                        }
                    } else {
                        None
                    },
                    None => None,
                },
                !ended ==> variants_at(toks, start, typed) == match variants_at(toks, p as int, typed) {
                    Some((vs, e)) => Some((variants_model(variants@) + vs, e)),
                    None => None::<(Seq<VariantModel>, int)>,
                },
                ended ==> variants_at(toks, start, typed) == Some((variants_model(variants@), p as int)),
            decreases n - p, if ended { 0nat } else { 1nat },
        {
            let variant_span = match self.span_at(p) { Ok(v) => v, Err(e) => return Err(e) };
            let (variant, q) = match self.expect_text(p, TokenKind::Identifier) { Ok(v) => v, Err(e) => return Err(e) };
            let ghost before = variants@;
            if self.check(q, TokenKind::Comma) {
                let ghost v = VariantModel::Unit(variant, variant_span);
                variants.push(EnumVariant::Unit(variant, variant_span));
                proof {
                    assert(variants_model(variants@) =~= variants_model(before).push(v));
                    match variants_at(toks, q + 1, typed) {
                        Some((vs, e)) => {
                            assert(variants_model(variants@) + vs =~= variants_model(before) + (seq![v] + vs));
                        },
                        None => {},
                    }
                }
                p = q + 1;
                continue ;
            } else if self.check(q, TokenKind::CloseBrace) {
                let ghost v = VariantModel::Unit(variant, variant_span);
                variants.push(EnumVariant::Unit(variant, variant_span));
                proof {
                    assert(variants_model(variants@) =~= variants_model(before) + seq![v]);
                }
                p = q;
                ended = true;
                continue ;
            }
            if self.check(q, TokenKind::Equal) && !typed {
                return Err(
                    parse_error(
                        String::from_str("cannot assign value to enum variant without inner type"),
                        variant_span,
                    ),
                );
            }
            let q = match self.expect(q, TokenKind::Equal) { Ok(v) => v, Err(e) => return Err(e) };
            let (value, q) = match self.parse_expression(q) { Ok(v) => v, Err(e) => return Err(e) };
            let ghost v = VariantModel::Expression(variant, expr_model(value), variant_span);
            variants.push(EnumVariant::Expression(variant, value, variant_span));
            proof {
                assert(variants_model(variants@) =~= variants_model(before).push(v));
            }
            if self.check(q, TokenKind::Comma) {
                proof {
                    match variants_at(toks, q + 1, typed) {
                        Some((vs, e)) => {
                            assert(variants_model(variants@) + vs =~= variants_model(before) + (seq![v] + vs));
                        },
                        None => {},
                    }
                }
                p = q + 1;
            } else {
                proof {
                    assert(variants_model(variants@) =~= variants_model(before) + seq![v]);
                }
                p = q;
                ended = true;
            }
        }
        proof {
            if !ended {
                assert(variants_model(variants@) + seq![] =~= variants_model(variants@));
            }
        }
        let end = match self.expect(p, TokenKind::CloseBrace) { Ok(v) => v, Err(e) => return Err(e) };
        match backing {
            Some(ty) => Ok((Statement::TypedEnum(name, ty, variants, span), end)),
            None => Ok((Statement::Enum(name, variants, span), end)),
        }
    }

    /// `union { Type, ... }` at `pos`.
    fn parse_union(&self, name: String, span: Span, pos: usize) -> (r: Result<(Statement, usize), BlazeError>)
        requires
            pos <= self.tokens@.len(),
        ensures
            statement_parsed(union_at(self.tokens@, pos as int, name, span), r),
            match r {
                Ok((_, q)) => pos < q <= self.tokens@.len(),
                Err(_) => true,
            },
    {
        let n = self.tokens.len();
        let ghost toks = self.tokens@;
        let mut p = match self.expect(pos, TokenKind::Union) { Ok(v) => v, Err(e) => return Err(e) };
        p = match self.expect(p, TokenKind::OpenBrace) { Ok(v) => v, Err(e) => return Err(e) };
        let ghost start = p as int;
        let mut types: Vec<Type> = Vec::new();
        let mut ended = false;
        while !ended && !self.check(p, TokenKind::CloseBrace)
            invariant
                n == self.tokens@.len(),
                toks == self.tokens@,
                start == pos + 2,
                pos < p <= self.tokens@.len(),
                !ended ==> members_at(toks, start) == match members_at(toks, p as int) {
                    Some((ts, e)) => Some((types@ + ts, e)),
                    None => None::<(Seq<Type>, int)>,
                },
                ended ==> members_at(toks, start) == Some((types@, p as int)),
            decreases self.tokens@.len() - p, if ended { 0nat } else { 1nat },
        {
            let ghost before = types@;
            let (ty, q) = match self.parse_type(p) { Ok(v) => v, Err(e) => return Err(e) };
            types.push(ty);
            if self.check(q, TokenKind::Comma) {
                proof {
                    match members_at(toks, q + 1) {
                        Some((ts, e)) => {
                            assert(types@ + ts =~= before + (seq![ty] + ts));
                        },
                        None => {},
                    }
                }
                p = q + 1;
            } else {
                proof {
                    assert(types@ =~= before + seq![ty]);
                }
                p = q;
                ended = true;
            }
        }
        proof {
            if !ended {
                assert(types@ + seq![] =~= types@);
            }
        }
        let end = match self.expect(p, TokenKind::CloseBrace) { Ok(v) => v, Err(e) => return Err(e) };
        Ok((Statement::Union(name, types, span), end))
    }

    /// `fn (params) [-> Type, ...] { statement* }` at `pos`. A `self: Type` parameter makes
    /// it bound to that type; `comptime` marks a parameter; `name: ...` or `name: Type...`
    /// takes the remaining arguments and must come last. Without `->` it returns `void`.
    #[verifier::rlimit(60)]
    fn parse_fn(&self, name: String, span: Span, pos: usize) -> (r: Result<(Statement, usize), BlazeError>)
        requires
            pos <= self.tokens@.len(),
        ensures
            statement_parsed(fn_at(self.tokens@, pos as int, name, span), r),
            match r {
                Ok((_, q)) => pos < q <= self.tokens@.len(),
                Err(_) => true,
            },
        decreases self.tokens@.len() - pos, 0nat,
    {
        let n = self.tokens.len();
        let ghost toks = self.tokens@;
        let mut p = match self.expect(pos, TokenKind::Fn) { Ok(v) => v, Err(e) => return Err(e) };
        p = match self.expect(p, TokenKind::OpenParenthesis) { Ok(v) => v, Err(e) => return Err(e) };
        let ghost start = p as int;
        let mut parameters: Vec<(String, Type, bool, Span)> = Vec::new();
        let mut receiver: Option<Type> = None;
        let mut ended = false;
        while !ended && !self.check(p, TokenKind::CloseParenthesis)
            invariant
                n == self.tokens@.len(),
                toks == self.tokens@,
                start == pos + 2,
                is_kind(toks, pos as int, TokenKind::Fn),
                is_kind(toks, pos as int + 1, TokenKind::OpenParenthesis),
                pos < p <= self.tokens@.len(),
                !ended ==> parameters_at(toks, start, None) == match parameters_at(toks, p as int, receiver) {
                    Some((ps, rc, e)) => Some((parameters@ + ps, rc, e)),
                    None => None::<(Seq<(String, Type, bool, Span)>, Option<Type>, int)>,
                },
                ended ==> parameters_at(toks, start, None) == Some((parameters@, receiver, p as int)),
            decreases self.tokens@.len() - p, if ended { 0nat } else { 1nat },
        {
            let parameter_span = match self.span_at(p) { Ok(v) => v, Err(e) => return Err(e) };
            let mut comptime = false;
            if self.check(p, TokenKind::Comptime) {
                comptime = true;
                p = p + 1;
            }
            if self.check(p, TokenKind::SelfKeyword) {
                let q = match self.expect(p + 1, TokenKind::Colon) { Ok(v) => v, Err(e) => return Err(e) };
                let (ty, q) = match self.parse_type(q) { Ok(v) => v, Err(e) => return Err(e) };
                receiver = Some(ty);
                p = q;
                if !self.check(p, TokenKind::CloseParenthesis) {
                    p = match self.expect(p, TokenKind::Comma) { Ok(v) => v, Err(e) => return Err(e) };
                }
                continue ;
            }
            let (parameter, q) = match self.expect_text(p, TokenKind::Identifier) { Ok(v) => v, Err(e) => return Err(e) };
            let q = match self.expect(q, TokenKind::Colon) { Ok(v) => v, Err(e) => return Err(e) };
            let ghost before = parameters@;
            if self.check(q, TokenKind::Elipsis) {
                let rest_span = self.tokens[q].span.duplicate();
                parameters.push((parameter, Type::VarArgs(Box::new(None), rest_span), comptime, parameter_span));
                proof {
                    assert(parameters@ =~= before + seq![parameters@.last()]);
                }
                p = q + 1;
                ended = true;
                continue ;
            }
            let (ty, q) = match self.parse_type(q) { Ok(v) => v, Err(e) => return Err(e) };
            if self.check(q, TokenKind::Elipsis) {
                let rest_span = self.tokens[q].span.duplicate();
                parameters.push((parameter, Type::VarArgs(Box::new(Some(ty)), rest_span), comptime, parameter_span));
                proof {
                    assert(parameters@ =~= before + seq![parameters@.last()]);
                }
                p = q + 1;
                ended = true;
                continue ;
            }
            p = q;
            if !self.check(p, TokenKind::CloseParenthesis) {
                p = match self.expect(p, TokenKind::Comma) { Ok(v) => v, Err(e) => return Err(e) };
            }
            let ghost entry = (parameter, ty, comptime, parameter_span);
            parameters.push((parameter, ty, comptime, parameter_span));
            proof {
                assert(parameters@ == before.push(entry));
                if is_kind(toks, q as int, TokenKind::CloseParenthesis) {
                    assert(parameters@ + seq![] =~= before + seq![entry]);
                } else {
                    match parameters_at(toks, p as int, receiver) {
                        Some((ps, rc, e)) => {
                            assert(parameters@ + ps =~= before + (seq![entry] + ps));
                        },
                        None => {},
                    }
                }
            }
        }
        proof {
            if !ended {
                assert(parameters@ + seq![] =~= parameters@);
            }
        }
        let ghost close = p as int;
        p = match self.expect(p, TokenKind::CloseParenthesis) { Ok(v) => v, Err(e) => return Err(e) };
        let mut return_types: Vec<Type> = Vec::new();
        if self.check(p, TokenKind::Arrow) {
            let ghost list_start = p as int + 1;
            let (ty, q) = match self.parse_type(p + 1) { Ok(v) => v, Err(e) => return Err(e) };
            return_types.push(ty);
            p = q;
            let mut done = false;
            while !done && self.check(p, TokenKind::Comma)
                invariant
                    n == self.tokens@.len(),
                    toks == self.tokens@,
                    pos < p <= self.tokens@.len(),
                    is_kind(toks, pos as int, TokenKind::Fn),
                    is_kind(toks, pos as int + 1, TokenKind::OpenParenthesis),
                    parameters_at(toks, pos + 2, None) == Some((parameters@, receiver, close)),
                    is_kind(toks, close, TokenKind::CloseParenthesis),
                    is_kind(toks, close + 1, TokenKind::Arrow),
                    list_start == close + 2,
                    return_types@.len() > 0,
                    !done ==> types_at(toks, list_start) == if is_kind(toks, p as int, TokenKind::Comma) {
                        match types_at(toks, p + 1) {
                            Some((ts, e)) => Some((return_types@ + ts, e)),
                            None => None::<(Seq<Type>, int)>,
                        }
                    } else {
                        Some((return_types@, p as int))
                    },
                    done ==> types_at(toks, list_start) == Some((return_types@, p as int)),
                decreases self.tokens@.len() - p, if done { 0nat } else { 1nat },
            {
                let ghost before = return_types@;
                let (ty, q) = match self.parse_type(p + 1) { Ok(v) => v, Err(e) => return Err(e) };
                return_types.push(ty);
                proof {
                    if is_kind(toks, q as int, TokenKind::Comma) {
                        match types_at(toks, q + 1) {
                            Some((ts, e)) => {
                                assert(return_types@ + ts =~= before + (seq![ty] + ts));
                            },
                            None => {},
                        }
                    } else {
                        assert(return_types@ =~= before + seq![ty]);
                    }
                }
                p = q;
            }
        } else {
            return_types.push(Type::Void(span.duplicate()));
            proof {
                assert(return_types@ =~= seq![Type::Void(span)]);
            }
        }
        let (body, end) = match self.parse_block(p) { Ok(v) => v, Err(e) => return Err(e) };
        match receiver {
            Some(ty) => {
                let st = Statement::StructFunction(ty, name, parameters, return_types, body, span);
                proof {
                    if let StmtModel::StructFunction(_, _, _, _, b, _) = stmt_model(st) {
                        assert(b =~= stmts_model(body@));
                    }
                }
                Ok((st, end))
            },
            None => {
                let st = Statement::Function(name, parameters, return_types, body, span);
                proof {
                    if let StmtModel::Function(_, _, _, b, _) = stmt_model(st) {
                        assert(b =~= stmts_model(body@));
                    }
                }
                Ok((st, end))
            },
        }
    }

    /// `return [expr, ...];` at `pos` (see `statement_at`).
    fn parse_return(&self, pos: usize) -> (r: Result<(Statement, usize), BlazeError>)
        requires
            pos <= self.tokens@.len(),
            is_kind(self.tokens@, pos as int, TokenKind::Return),
        ensures
            statement_parsed(statement_at(self.tokens@, pos as int), r),
            match r {
                Ok((_, q)) => pos < q <= self.tokens@.len(),
                Err(_) => true,
            },
        decreases self.tokens@.len() - pos, 1nat,
    {
        let n = self.tokens.len();
        let ghost toks = self.tokens@;
        let span = self.tokens[pos].span.duplicate();
        let mut p = pos + 1;
        let mut expressions: Vec<Expression> = Vec::new();
        if !self.check(p, TokenKind::Semicolon) {
            let ghost list_start = p as int;
            let (e, q) = match self.parse_expression(p) { Ok(v) => v, Err(e) => return Err(e) };
            expressions.push(e);
            p = q;
            while self.check(p, TokenKind::Comma)
                invariant
                    n == self.tokens@.len(),
                    toks == self.tokens@,
                    pos < p <= n,
                    list_start == pos + 1,
                    is_kind(toks, pos as int, TokenKind::Return),
                    !is_kind(toks, list_start, TokenKind::Semicolon),
                    exprs_at(toks, list_start) == if is_kind(toks, p as int, TokenKind::Comma) {
                        match exprs_at(toks, p + 1) {
                            Some((xs, e)) => Some((exprs_model(expressions@) + xs, e)),
                            None => None::<(Seq<ExprModel>, int)>,
                        }
                    } else {
                        Some((exprs_model(expressions@), p as int))
                    },
                decreases n - p,
            {
                let ghost before = expressions@;
                let (e, q) = match self.parse_expression(p + 1) { Ok(v) => v, Err(e) => return Err(e) };
                expressions.push(e);
                proof {
                    assert(exprs_model(expressions@) =~= exprs_model(before).push(expr_model(e)));
                    if is_kind(toks, q as int, TokenKind::Comma) {
                        match exprs_at(toks, q + 1) {
                            Some((xs, x)) => {
                                assert(exprs_model(expressions@) + xs =~= exprs_model(before) + (seq![expr_model(e)] + xs));
                            },
                            None => {},
                        }
                    } else {
                        assert(exprs_model(expressions@) =~= exprs_model(before) + seq![expr_model(e)]);
                    }
                }
                p = q;
            }
        } else {
            proof {
                assert(exprs_model(expressions@) =~= seq![]);
            }
        }
        let end = match self.expect(p, TokenKind::Semicolon) { Ok(v) => v, Err(e) => return Err(e) };
        Ok((Statement::Return(expressions, span), end))
    }

    /// `mut name := e;` or `mut name: Type = e;` at `pos` (see `statement_at`).
    fn parse_mut(&self, pos: usize) -> (r: Result<(Statement, usize), BlazeError>)
        requires
            pos <= self.tokens@.len(),
            is_kind(self.tokens@, pos as int, TokenKind::Mut),
        ensures
            statement_parsed(statement_at(self.tokens@, pos as int), r),
            match r {
                Ok((_, q)) => pos < q <= self.tokens@.len(),
                Err(_) => true,
            },
        decreases self.tokens@.len() - pos, 1nat,
    {
        let n = self.tokens.len();
        let span = match self.span_at(pos + 1) { Ok(v) => v, Err(e) => return Err(e) };
        let (name, p) = match self.expect_text(pos + 1, TokenKind::Identifier) { Ok(v) => v, Err(e) => return Err(e) };
        let mut ty = Type::AwaitingInference;
        let mut q = p;
        if self.check(p, TokenKind::ColonEquals) {
            q = p + 1;
        } else {
            let c = match self.expect(p, TokenKind::Colon) { Ok(v) => v, Err(e) => return Err(e) };
            let (t, after) = match self.parse_type(c) { Ok(v) => v, Err(e) => return Err(e) };
            ty = t;
            q = match self.expect(after, TokenKind::Equal) { Ok(v) => v, Err(e) => return Err(e) };
        }
        let (value, end) = match self.parse_declaration_end(q) { Ok(v) => v, Err(e) => return Err(e) };
        Ok((Statement::MutableDeclaration(name, ty, value, span), end))
    }

    /// `while cond { statement* }` at `pos` (see `statement_at`).
    fn parse_while(&self, pos: usize) -> (r: Result<(Statement, usize), BlazeError>)
        requires
            pos <= self.tokens@.len(),
            is_kind(self.tokens@, pos as int, TokenKind::While),
        ensures
            statement_parsed(statement_at(self.tokens@, pos as int), r),
            match r {
                Ok((_, q)) => pos < q <= self.tokens@.len(),
                Err(_) => true,
            },
        decreases self.tokens@.len() - pos, 1nat,
    {
        let n = self.tokens.len();
        let span = self.tokens[pos].span.duplicate();
        let (condition, p) = match self.parse_expression(pos + 1) { Ok(v) => v, Err(e) => return Err(e) };
        let (body, end) = match self.parse_block(p) { Ok(v) => v, Err(e) => return Err(e) };
        let st = Statement::While(condition, body, span);
        proof {
            if let StmtModel::While(_, b, _) = stmt_model(st) {
                assert(b =~= stmts_model(body@));
            }
        }
        Ok((st, end))
    }

    /// `if cond { statement* } [else { statement* }]` at `pos`; its span is the condition's (see `statement_at`).
    fn parse_if(&self, pos: usize) -> (r: Result<(Statement, usize), BlazeError>)
        requires
            pos <= self.tokens@.len(),
            is_kind(self.tokens@, pos as int, TokenKind::If),
        ensures
            statement_parsed(statement_at(self.tokens@, pos as int), r),
            match r {
                Ok((_, q)) => pos < q <= self.tokens@.len(),
                Err(_) => true,
            },
        decreases self.tokens@.len() - pos, 1nat,
    {
        let n = self.tokens.len();
        let span = match self.span_at(pos + 1) { Ok(v) => v, Err(e) => return Err(e) };
        let (condition, p) = match self.parse_expression(pos + 1) { Ok(v) => v, Err(e) => return Err(e) };
        let (then_body, p) = match self.parse_block(p) { Ok(v) => v, Err(e) => return Err(e) };
        let mut end = p;
        let mut else_body: Vec<Statement> = Vec::new();
        if self.check(p, TokenKind::Else) {
            let (body, q) = match self.parse_block(p + 1) { Ok(v) => v, Err(e) => return Err(e) };
            else_body = body;
            end = q;
        } else {
            proof {
                assert(stmts_model(else_body@) =~= seq![]);
            }
        }
        let st = Statement::If(condition, then_body, else_body, span);
        proof {
            if let StmtModel::If(_, a, b, _) = stmt_model(st) {
                assert(a =~= stmts_model(then_body@));
                assert(b =~= stmts_model(else_body@));
            }
        }
        Ok((st, end))
    }

    /// Parses the whole token sequence from its start (see `program_at`). A failed statement
    /// records its error and recovery then gives up on the rest of the tokens, so a failure
    /// holds exactly one error. Either way the cursor ends after the last token.
    pub fn parse(&mut self) -> (r: Result<Vec<Statement>, Vec<BlazeError>>)
        ensures
            final(self).tokens == old(self).tokens,
            final(self).current == old(self).tokens@.len(),
            parse_outcome(old(self).tokens@, r),
    {
        let n = self.tokens.len();
        self.current = 0;
        self.statements = Vec::new();
        self.errors = Vec::new();
        let ghost toks = self.tokens@;
        let mut statements: Vec<Statement> = Vec::new();
        let mut pos: usize = 0;
        while pos < n
            invariant
                n == self.tokens@.len(),
                self.tokens == old(self).tokens,
                toks == self.tokens@,
                pos <= n,
                self.errors@.len() == 0,
                program_at(toks) == match program_from(toks, pos as int) {
                    Some(ss) => Some(stmts_model(statements@) + ss),
                    None => None::<Seq<StmtModel>>,
                },
            decreases n - pos,
        {
            match self.parse_statement(pos) {
                Ok((statement, next)) => {
                    let ghost before = statements@;
                    statements.push(statement);
                    proof {
                        assert(stmts_model(statements@) =~= stmts_model(before).push(stmt_model(statement)));
                        match program_from(toks, next as int) {
                            Some(ss) => {
                                assert(stmts_model(statements@) + ss =~= stmts_model(before) + (seq![stmt_model(statement)] + ss));
                            },
                            None => {},
                        }
                    }
                    pos = next;
                },
                Err(error) => {
                    self.current = pos;
                    self.errors.push(error);
                    self.synchronize();
                    let mut out: Vec<BlazeError> = Vec::new();
                    std::mem::swap(&mut out, &mut self.errors);
                    return Err(out);
                },
            }
        }
        self.current = pos;
        proof {
            assert(stmts_model(statements@) + seq![] =~= stmts_model(statements@));
        }
        Ok(statements)
    }

    /// Recovery after a failed statement: skips every remaining token.
    fn synchronize(&mut self)
        ensures
            final(self).tokens == old(self).tokens,
            final(self).errors == old(self).errors,
            final(self).current == final(self).tokens@.len(),
    {
        self.current = self.tokens.len();
    }
}


/// A struct body `a: i32, b: bool }`, whatever the two names, gives the fields `a: i32` and
/// `b: bool` in that order, and ends at the `}`.
pub proof fn lemma_two_field_struct(toks: Seq<Token>, p: int)
    requires
        0 <= p,
        word_at(toks, p),
        is_kind(toks, p + 1, TokenKind::Colon),
        is_kind(toks, p + 2, TokenKind::I32),
        is_kind(toks, p + 3, TokenKind::Comma),
        word_at(toks, p + 4),
        is_kind(toks, p + 5, TokenKind::Colon),
        is_kind(toks, p + 6, TokenKind::Bool),
        is_kind(toks, p + 7, TokenKind::CloseBrace),
    ensures
        fields_at(toks, p) == Some(
            (
                seq![
                    StructField {
                        name: text_at(toks, p),
                        ty: Type::I32(toks[p + 2].span),
                        span: toks[p].span,
                    },
                    StructField {
                        name: text_at(toks, p + 4),
                        ty: Type::Bool(toks[p + 6].span),
                        span: toks[p + 4].span,
                    },
                ],
                p + 7,
            ),
        ),
{
    let a = StructField { name: text_at(toks, p), ty: Type::I32(toks[p + 2].span), span: toks[p].span };
    let b = StructField {
        name: text_at(toks, p + 4),
        ty: Type::Bool(toks[p + 6].span),
        span: toks[p + 4].span,
    };
    assert(type_at(toks, p + 2) == Some((Type::I32(toks[p + 2].span), p + 3)));
    assert(type_at(toks, p + 6) == Some((Type::Bool(toks[p + 6].span), p + 7)));
    assert(fields_at(toks, p + 4) == Some((seq![b], p + 7)));
    assert(seq![a] + seq![b] =~= seq![a, b]);
}

} // verus!
