//! What pruning rests on, node by node: what each sort of node needs, which
//! declarations are roots, and what is left in the end.

use crate::attributes::Attribute;
use crate::context::TypedAstContext;
use crate::decls::CDeclKind;
use crate::exprs::{CExprKind, OffsetOfKind};
use crate::ids::{CDeclId, CExprId, CStmtId, CTypeId, SomeId};
use crate::iterators::{decl_nodes, expr_nodes, operand_nodes, stmt_nodes, type_nodes};
use crate::prune::{
    is_prunable, is_pruned, is_root, is_wanted, is_wanted_decl, law_needs_of_wanted_are_wanted,
    needs,
};
use crate::stmts::{AsmOperand, CStmtKind};
use crate::types::{CQualTypeId, CTypeKind};
use vstd::prelude::*;

verus! {

broadcast use vstd::seq_lib::group_seq_properties;

broadcast proof fn lemma_expr_nodes(ids: Seq<CExprId>, x: SomeId)
    ensures
        #[trigger] expr_nodes(ids).contains(x) <==> (x matches SomeId::Expr(id) && ids.contains(id)),
{
    let nodes = expr_nodes(ids);
    if nodes.contains(x) {
        let i = choose|i: int| 0 <= i < nodes.len() && nodes[i] == x;
        assert(ids.contains(ids[i]));
    }
    if let SomeId::Expr(id) = x {
        if ids.contains(id) {
            let i = choose|i: int| 0 <= i < ids.len() && ids[i] == id;
            assert(nodes[i] == x);
        }
    }
}

broadcast proof fn lemma_stmt_nodes(ids: Seq<CStmtId>, x: SomeId)
    ensures
        #[trigger] stmt_nodes(ids).contains(x) <==> (x matches SomeId::Stmt(id) && ids.contains(id)),
{
    let nodes = stmt_nodes(ids);
    if nodes.contains(x) {
        let i = choose|i: int| 0 <= i < nodes.len() && nodes[i] == x;
        assert(ids.contains(ids[i]));
    }
    if let SomeId::Stmt(id) = x {
        if ids.contains(id) {
            let i = choose|i: int| 0 <= i < ids.len() && ids[i] == id;
            assert(nodes[i] == x);
        }
    }
}

broadcast proof fn lemma_decl_nodes(ids: Seq<CDeclId>, x: SomeId)
    ensures
        #[trigger] decl_nodes(ids).contains(x) <==> (x matches SomeId::Decl(id) && ids.contains(id)),
{
    let nodes = decl_nodes(ids);
    if nodes.contains(x) {
        let i = choose|i: int| 0 <= i < nodes.len() && nodes[i] == x;
        assert(ids.contains(ids[i]));
    }
    if let SomeId::Decl(id) = x {
        if ids.contains(id) {
            let i = choose|i: int| 0 <= i < ids.len() && ids[i] == id;
            assert(nodes[i] == x);
        }
    }
}

broadcast proof fn lemma_type_nodes(types: Seq<CQualTypeId>, x: SomeId)
    ensures
        #[trigger] type_nodes(types).contains(x) <==> exists|i: int|
            0 <= i < types.len() && x == SomeId::Type((#[trigger] types[i]).ctype),
{
    let nodes = type_nodes(types);
    if nodes.contains(x) {
        let i = choose|i: int| 0 <= i < nodes.len() && nodes[i] == x;
        assert(x == SomeId::Type(types[i].ctype));
    }
    if exists|i: int| 0 <= i < types.len() && x == SomeId::Type((#[trigger] types[i]).ctype) {
        let i = choose|i: int|
            0 <= i < types.len() && x == SomeId::Type((#[trigger] types[i]).ctype);
        assert(nodes[i] == x);
    }
}

broadcast proof fn lemma_operand_nodes(operands: Seq<AsmOperand>, x: SomeId)
    ensures
        #[trigger] operand_nodes(operands).contains(x) <==> exists|i: int|
            0 <= i < operands.len() && x == SomeId::Expr((#[trigger] operands[i]).expression),
{
    let nodes = operand_nodes(operands);
    if nodes.contains(x) {
        let i = choose|i: int| 0 <= i < nodes.len() && nodes[i] == x;
        assert(x == SomeId::Expr(operands[i].expression));
    }
    if exists|i: int|
        0 <= i < operands.len() && x == SomeId::Expr((#[trigger] operands[i]).expression) {
        let i = choose|i: int|
            0 <= i < operands.len() && x == SomeId::Expr((#[trigger] operands[i]).expression);
        assert(nodes[i] == x);
    }
}

broadcast group group_nodes {
    lemma_expr_nodes,
    lemma_stmt_nodes,
    lemma_decl_nodes,
    lemma_type_nodes,
    lemma_operand_nodes,
}

/// A statement needs all the statements, expressions and declarations in it,
/// and nothing else; a `goto` does not need the label it jumps to.
pub proof fn law_what_statements_need(ctx: TypedAstContext, id: CStmtId, x: SomeId)
    ensures
        needs(ctx, SomeId::Stmt(id), x) <==> match ctx.stmt_at(id).kind {
            CStmtKind::Label(s) => x == SomeId::Stmt(s),
            CStmtKind::Case(e, s, _) => x == SomeId::Expr(e) || x == SomeId::Stmt(s),
            CStmtKind::Default(s) => x == SomeId::Stmt(s),
            CStmtKind::Compound(ss) => x matches SomeId::Stmt(s) && ss@.contains(s),
            CStmtKind::Expr(e) => x == SomeId::Expr(e),
            CStmtKind::If { scrutinee, true_variant, false_variant } => {
                ||| x == SomeId::Expr(scrutinee)
                ||| x == SomeId::Stmt(true_variant)
                ||| (x matches SomeId::Stmt(s) && false_variant == Some(s))
            },
            CStmtKind::Switch { scrutinee, body } => {
                x == SomeId::Expr(scrutinee) || x == SomeId::Stmt(body)
            },
            CStmtKind::While { condition, body } => {
                x == SomeId::Expr(condition) || x == SomeId::Stmt(body)
            },
            CStmtKind::DoWhile { body, condition } => {
                x == SomeId::Expr(condition) || x == SomeId::Stmt(body)
            },
            CStmtKind::ForLoop { init, condition, increment, body } => {
                ||| x == SomeId::Stmt(body)
                ||| (x matches SomeId::Stmt(s) && init == Some(s))
                ||| (x matches SomeId::Expr(e) && (condition == Some(e) || increment == Some(e)))
            },
            CStmtKind::Return(value) => x matches SomeId::Expr(e) && value == Some(e),
            CStmtKind::Decls(decls) => x matches SomeId::Decl(d) && decls@.contains(d),
            CStmtKind::Asm { inputs, outputs, .. } => {
                ||| exists|i: int|
                    0 <= i < inputs@.len() && x == SomeId::Expr((#[trigger] inputs@[i]).expression)
                ||| exists|i: int|
                    0 <= i < outputs@.len() && x == SomeId::Expr(
                        (#[trigger] outputs@[i]).expression,
                    )
            },
            CStmtKind::Empty | CStmtKind::Goto(_) | CStmtKind::Break | CStmtKind::Continue => false,
        },
{
    broadcast use group_nodes;

}

/// An expression needs its types, its operands, the statement or declaration
/// that it names, and the macros that it comes from, and nothing else.
pub proof fn law_what_expressions_need(ctx: TypedAstContext, id: CExprId, x: SomeId)
    ensures
        needs(ctx, SomeId::Expr(id), x) <==> {
            ||| (x matches SomeId::Decl(d) && ctx.macro_invocations@.contains_key(id.0)
                && ctx.macro_invocations@[id.0]@.contains(d))
            ||| (ctx.expr_at(id).kind.spec_get_qual_type() matches Some(ty) && x == SomeId::Type(
                ty.ctype,
            ))
            ||| match ctx.expr_at(id).kind {
                CExprKind::BadExpr => false,
                CExprKind::Literal(_, _) => false,
                CExprKind::ImplicitValueInit(_) => false,
                CExprKind::DeclRef(_, d, _) => x == SomeId::Decl(d),
                CExprKind::Unary(_, _, e, _) => x == SomeId::Expr(e),
                CExprKind::UnaryType(_, _, operand, ty) => x == SomeId::Type(ty.ctype) || (
                x matches SomeId::Expr(e) && operand == Some(e)),
                CExprKind::OffsetOf(_, OffsetOfKind::Constant(_)) => false,
                CExprKind::OffsetOf(_, OffsetOfKind::Variable(ty, _, e)) => x == SomeId::Type(
                    ty.ctype,
                ) || x == SomeId::Expr(e),
                CExprKind::Binary(_, _, lhs, rhs, lhs_type, result_type) => {
                    ||| x == SomeId::Expr(lhs)
                    ||| x == SomeId::Expr(rhs)
                    ||| (lhs_type matches Some(ty) && x == SomeId::Type(ty.ctype))
                    ||| (result_type matches Some(ty) && x == SomeId::Type(ty.ctype))
                },
                CExprKind::ImplicitCast(_, e, _, _, _) => x == SomeId::Expr(e),
                CExprKind::ExplicitCast(_, e, _, _, _) => x == SomeId::Expr(e),
                CExprKind::ConstantExpr(_, e, _) => x == SomeId::Expr(e),
                CExprKind::Call(_, func, args) => x == SomeId::Expr(func) || (
                x matches SomeId::Expr(e) && args@.contains(e)),
                CExprKind::Member(_, e, _, _, _) => x == SomeId::Expr(e),
                CExprKind::ArraySubscript(_, base, index, _) => x == SomeId::Expr(base) || x
                    == SomeId::Expr(index),
                CExprKind::Conditional(_, c, lhs, rhs) => x == SomeId::Expr(c) || x
                    == SomeId::Expr(lhs) || x == SomeId::Expr(rhs),
                CExprKind::BinaryConditional(_, c, rhs) => x == SomeId::Expr(c) || x
                    == SomeId::Expr(rhs),
                CExprKind::InitList(_, es, _, _) => x matches SomeId::Expr(e) && es@.contains(e),
                CExprKind::Paren(_, e) => x == SomeId::Expr(e),
                CExprKind::CompoundLiteral(_, e) => x == SomeId::Expr(e),
                CExprKind::Predefined(_, e) => x == SomeId::Expr(e),
                CExprKind::Statements(_, s) => x == SomeId::Stmt(s),
                CExprKind::VAArg(_, e) => x == SomeId::Expr(e),
                CExprKind::ShuffleVector(_, es) => x matches SomeId::Expr(e) && es@.contains(e),
                CExprKind::ConvertVector(_, es) => x matches SomeId::Expr(e) && es@.contains(e),
                CExprKind::DesignatedInitExpr(_, _, e) => x == SomeId::Expr(e),
                CExprKind::Choose(_, c, lhs, rhs, _) => x == SomeId::Expr(c) || x == SomeId::Expr(
                    lhs,
                ) || x == SomeId::Expr(rhs),
                CExprKind::Atomic { ptr, order, val1, order_fail, val2, weak, .. } => {
                    x matches SomeId::Expr(e) && (e == ptr || e == order || val1 == Some(e)
                        || order_fail == Some(e) || val2 == Some(e) || weak == Some(e))
                },
            }
        },
{
    broadcast use group_nodes;

}

/// A declaration needs its types, the declarations and the body or expressions
/// in it, and nothing else; an enum constant needs its enum.
pub proof fn law_what_declarations_need(ctx: TypedAstContext, id: CDeclId, x: SomeId)
    ensures
        needs(ctx, SomeId::Decl(id), x) <==> match ctx.decl_at(id).kind {
            CDeclKind::Function { typ, parameters, body, .. } => {
                ||| x == SomeId::Type(typ)
                ||| (x matches SomeId::Decl(d) && parameters@.contains(d))
                ||| (x matches SomeId::Stmt(s) && body == Some(s))
            },
            CDeclKind::Variable { typ, initializer, .. } => {
                ||| x == SomeId::Type(typ.ctype)
                ||| (x matches SomeId::Expr(e) && initializer == Some(e))
            },
            CDeclKind::Enum { variants, integral_type, .. } => {
                ||| (integral_type matches Some(ty) && x == SomeId::Type(ty.ctype))
                ||| (x matches SomeId::Decl(d) && variants@.contains(d))
            },
            CDeclKind::EnumConstant { .. } => x == SomeId::Decl(ctx.parents@[id.0]),
            CDeclKind::Typedef { typ, .. } => x == SomeId::Type(typ.ctype),
            CDeclKind::Struct { fields, .. } => {
                fields matches Some(ids) && x matches SomeId::Decl(d) && ids@.contains(d)
            },
            CDeclKind::Union { fields, .. } => {
                fields matches Some(ids) && x matches SomeId::Decl(d) && ids@.contains(d)
            },
            CDeclKind::Field { typ, .. } => x == SomeId::Type(typ.ctype),
            CDeclKind::MacroObject { .. } => false,
            CDeclKind::MacroFunction { .. } => false,
            CDeclKind::NonCanonicalDecl { canonical_decl } => x == SomeId::Decl(canonical_decl),
            CDeclKind::StaticAssert { assert_expr, message } => {
                x matches SomeId::Expr(e) && (e == assert_expr || message == Some(e))
            },
        },
{
    broadcast use group_nodes;

}

/// A type needs the types, expressions and declarations that it is made of,
/// and nothing else; an elaborated type needs the declaration that the type
/// behind it stands for.
pub proof fn law_what_types_need(ctx: TypedAstContext, id: CTypeId, x: SomeId)
    ensures
        needs(ctx, SomeId::Type(id), x) <==> match ctx.type_at(id).kind {
            CTypeKind::Complex(t) => x == SomeId::Type(t),
            CTypeKind::Pointer(q) => x == SomeId::Type(q.ctype),
            CTypeKind::Reference(q) => x == SomeId::Type(q.ctype),
            CTypeKind::ConstantArray(t, _) => x == SomeId::Type(t),
            CTypeKind::IncompleteArray(t) => x == SomeId::Type(t),
            CTypeKind::VariableArray(t, size) => x == SomeId::Type(t) || (x matches SomeId::Expr(e)
                && size == Some(e)),
            CTypeKind::TypeOf(t) => x == SomeId::Type(t),
            CTypeKind::TypeOfExpr(e) => x == SomeId::Expr(e),
            CTypeKind::Function(result, params, _, _, _) => {
                ||| x == SomeId::Type(result.ctype)
                ||| exists|i: int|
                    0 <= i < params@.len() && x == SomeId::Type((#[trigger] params@[i]).ctype)
            },
            CTypeKind::Typedef(d) => x == SomeId::Decl(d),
            CTypeKind::Decayed(t) => x == SomeId::Type(t),
            CTypeKind::Paren(t) => x == SomeId::Type(t),
            CTypeKind::Struct(d) => x == SomeId::Decl(d),
            CTypeKind::Union(d) => x == SomeId::Decl(d),
            CTypeKind::Enum(d) => x == SomeId::Decl(d),
            CTypeKind::Attributed(q, _) => x == SomeId::Type(q.ctype),
            CTypeKind::BlockPointer(q) => x == SomeId::Type(q.ctype),
            CTypeKind::Vector(q, _) => x == SomeId::Type(q.ctype),
            CTypeKind::Elaborated(t) => match ctx.type_at(t).kind {
                CTypeKind::Typedef(d) => x == SomeId::Decl(d),
                CTypeKind::Struct(d) => x == SomeId::Decl(d),
                CTypeKind::Union(d) => x == SomeId::Decl(d),
                CTypeKind::Enum(d) => x == SomeId::Decl(d),
                _ => false,
            },
            _ => false,
        },
{
    broadcast use group_nodes;

}

/// A root is a top-level function or variable: a function with a body that is
/// global and not hidden by being inline, any function with a body if those
/// are asked for, a variable that is defined here and visible from outside, or
/// either of them if it is marked as used.
pub proof fn law_what_roots_are(ctx: TypedAstContext, want_unused_functions: bool, id: SomeId)
    ensures
        is_root(ctx, want_unused_functions, id) <==> {
            &&& id matches SomeId::Decl(decl)
            &&& ctx.c_decls_top@.contains(decl)
            &&& match ctx.decl_at(decl).kind {
                CDeclKind::Function {
                    body,
                    is_global,
                    is_inline,
                    is_inline_externally_visible,
                    attrs,
                    ..
                } => {
                    ||| attrs@.contains(Attribute::Used.key())
                    ||| body is Some && (want_unused_functions || (is_global && !(is_inline
                        && !is_inline_externally_visible)))
                },
                CDeclKind::Variable { is_defn, is_externally_visible, attrs, .. } => {
                    ||| attrs@.contains(Attribute::Used.key())
                    ||| is_defn && is_externally_visible
                },
                _ => false,
            }
        },
{
}

proof fn lemma_wanted_part(
    ctx: TypedAstContext,
    want_unused_functions: bool,
    id: CStmtId,
    x: SomeId,
)
    requires
        is_wanted(ctx, want_unused_functions, SomeId::Stmt(id)),
        needs(ctx, SomeId::Stmt(id), x),
    ensures
        is_wanted(ctx, want_unused_functions, x),
{
    law_needs_of_wanted_are_wanted(ctx, want_unused_functions, SomeId::Stmt(id), x);
}

/// With a statement all the statements, expressions and declarations in it are
/// wanted, so a walk over a function reaches all of its body.
pub proof fn law_wanted_statements_bring_their_parts(
    ctx: TypedAstContext,
    want_unused_functions: bool,
    id: CStmtId,
)
    requires
        is_wanted(ctx, want_unused_functions, SomeId::Stmt(id)),
    ensures
        match ctx.stmt_at(id).kind {
            CStmtKind::Label(s) => is_wanted(ctx, want_unused_functions, SomeId::Stmt(s)),
            CStmtKind::Case(e, s, _) => {
                &&& is_wanted(ctx, want_unused_functions, SomeId::Expr(e))
                &&& is_wanted(ctx, want_unused_functions, SomeId::Stmt(s))
            },
            CStmtKind::Default(s) => is_wanted(ctx, want_unused_functions, SomeId::Stmt(s)),
            CStmtKind::Compound(ss) => forall|i: int|
                0 <= i < ss@.len() ==> is_wanted(
                    ctx,
                    want_unused_functions,
                    SomeId::Stmt(#[trigger] ss@[i]),
                ),
            CStmtKind::Expr(e) => is_wanted(ctx, want_unused_functions, SomeId::Expr(e)),
            CStmtKind::If { scrutinee, true_variant, false_variant } => {
                &&& is_wanted(ctx, want_unused_functions, SomeId::Expr(scrutinee))
                &&& is_wanted(ctx, want_unused_functions, SomeId::Stmt(true_variant))
                &&& false_variant matches Some(s) ==> is_wanted(
                    ctx,
                    want_unused_functions,
                    SomeId::Stmt(s),
                )
            },
            CStmtKind::Switch { scrutinee, body } => {
                &&& is_wanted(ctx, want_unused_functions, SomeId::Expr(scrutinee))
                &&& is_wanted(ctx, want_unused_functions, SomeId::Stmt(body))
            },
            CStmtKind::While { condition, body } => {
                &&& is_wanted(ctx, want_unused_functions, SomeId::Expr(condition))
                &&& is_wanted(ctx, want_unused_functions, SomeId::Stmt(body))
            },
            CStmtKind::DoWhile { body, condition } => {
                &&& is_wanted(ctx, want_unused_functions, SomeId::Expr(condition))
                &&& is_wanted(ctx, want_unused_functions, SomeId::Stmt(body))
            },
            CStmtKind::ForLoop { init, condition, increment, body } => {
                &&& is_wanted(ctx, want_unused_functions, SomeId::Stmt(body))
                &&& init matches Some(s) ==> is_wanted(ctx, want_unused_functions, SomeId::Stmt(s))
                &&& condition matches Some(e) ==> is_wanted(
                    ctx,
                    want_unused_functions,
                    SomeId::Expr(e),
                )
                &&& increment matches Some(e) ==> is_wanted(
                    ctx,
                    want_unused_functions,
                    SomeId::Expr(e),
                )
            },
            CStmtKind::Return(value) => value matches Some(e) ==> is_wanted(
                ctx,
                want_unused_functions,
                SomeId::Expr(e),
            ),
            CStmtKind::Decls(decls) => forall|i: int|
                0 <= i < decls@.len() ==> is_wanted(
                    ctx,
                    want_unused_functions,
                    SomeId::Decl(#[trigger] decls@[i]),
                ),
            CStmtKind::Asm { inputs, outputs, .. } => {
                &&& forall|i: int|
                    0 <= i < inputs@.len() ==> is_wanted(
                        ctx,
                        want_unused_functions,
                        SomeId::Expr((#[trigger] inputs@[i]).expression),
                    )
                &&& forall|i: int|
                    0 <= i < outputs@.len() ==> is_wanted(
                        ctx,
                        want_unused_functions,
                        SomeId::Expr((#[trigger] outputs@[i]).expression),
                    )
            },
            _ => true,
        },
{
    broadcast use group_nodes;

    match ctx.stmt_at(id).kind {
        CStmtKind::Label(s) => {
            lemma_wanted_part(ctx, want_unused_functions, id, SomeId::Stmt(s));
        },
        CStmtKind::Case(e, s, _) => {
            lemma_wanted_part(ctx, want_unused_functions, id, SomeId::Expr(e));
            lemma_wanted_part(ctx, want_unused_functions, id, SomeId::Stmt(s));
        },
        CStmtKind::Default(s) => {
            lemma_wanted_part(ctx, want_unused_functions, id, SomeId::Stmt(s));
        },
        CStmtKind::Compound(ss) => {
            assert forall|i: int| 0 <= i < ss@.len() implies is_wanted(
                ctx,
                want_unused_functions,
                SomeId::Stmt(#[trigger] ss@[i]),
            ) by {
                lemma_wanted_part(ctx, want_unused_functions, id, SomeId::Stmt(ss@[i]));
            }
        },
        CStmtKind::Expr(e) => {
            lemma_wanted_part(ctx, want_unused_functions, id, SomeId::Expr(e));
        },
        CStmtKind::If { scrutinee, true_variant, false_variant } => {
            lemma_wanted_part(ctx, want_unused_functions, id, SomeId::Expr(scrutinee));
            lemma_wanted_part(ctx, want_unused_functions, id, SomeId::Stmt(true_variant));
            if let Some(s) = false_variant {
                lemma_wanted_part(ctx, want_unused_functions, id, SomeId::Stmt(s));
            }
        },
        CStmtKind::Switch { scrutinee: e, body: s } => {
            lemma_wanted_part(ctx, want_unused_functions, id, SomeId::Expr(e));
            lemma_wanted_part(ctx, want_unused_functions, id, SomeId::Stmt(s));
        },
        CStmtKind::While { condition: e, body: s } => {
            lemma_wanted_part(ctx, want_unused_functions, id, SomeId::Expr(e));
            lemma_wanted_part(ctx, want_unused_functions, id, SomeId::Stmt(s));
        },
        CStmtKind::DoWhile { condition: e, body: s } => {
            lemma_wanted_part(ctx, want_unused_functions, id, SomeId::Expr(e));
            lemma_wanted_part(ctx, want_unused_functions, id, SomeId::Stmt(s));
        },
        CStmtKind::ForLoop { init, condition, increment, body } => {
            lemma_wanted_part(ctx, want_unused_functions, id, SomeId::Stmt(body));
            if let Some(s) = init {
                lemma_wanted_part(ctx, want_unused_functions, id, SomeId::Stmt(s));
            }
            if let Some(e) = condition {
                lemma_wanted_part(ctx, want_unused_functions, id, SomeId::Expr(e));
            }
            if let Some(e) = increment {
                lemma_wanted_part(ctx, want_unused_functions, id, SomeId::Expr(e));
            }
        },
        CStmtKind::Return(value) => {
            if let Some(e) = value {
                lemma_wanted_part(ctx, want_unused_functions, id, SomeId::Expr(e));
            }
        },
        CStmtKind::Decls(decls) => {
            assert forall|i: int| 0 <= i < decls@.len() implies is_wanted(
                ctx,
                want_unused_functions,
                SomeId::Decl(#[trigger] decls@[i]),
            ) by {
                lemma_wanted_part(ctx, want_unused_functions, id, SomeId::Decl(decls@[i]));
            }
        },
        CStmtKind::Asm { inputs, outputs, .. } => {
            assert forall|i: int| 0 <= i < inputs@.len() implies is_wanted(
                ctx,
                want_unused_functions,
                SomeId::Expr((#[trigger] inputs@[i]).expression),
            ) by {
                lemma_wanted_part(ctx, want_unused_functions, id, SomeId::Expr(inputs@[i].expression));
            }
            assert forall|i: int| 0 <= i < outputs@.len() implies is_wanted(
                ctx,
                want_unused_functions,
                SomeId::Expr((#[trigger] outputs@[i]).expression),
            ) by {
                lemma_wanted_part(ctx, want_unused_functions, id, SomeId::Expr(outputs@[i].expression));
            }
        },
        _ => {},
    }
}

/// With an expression the declaration that it names is wanted, and so are the
/// macros that it comes from; with a call what is called and every argument.
pub proof fn law_wanted_expressions_bring_what_they_name(
    ctx: TypedAstContext,
    want_unused_functions: bool,
    id: CExprId,
)
    requires
        is_wanted(ctx, want_unused_functions, SomeId::Expr(id)),
    ensures
        ctx.expr_at(id).kind matches CExprKind::DeclRef(_, d, _) ==> is_wanted(
            ctx,
            want_unused_functions,
            SomeId::Decl(d),
        ),
        ctx.expr_at(id).kind matches CExprKind::Call(_, func, args) ==> {
            &&& is_wanted(ctx, want_unused_functions, SomeId::Expr(func))
            &&& forall|i: int|
                0 <= i < args@.len() ==> is_wanted(
                    ctx,
                    want_unused_functions,
                    SomeId::Expr(#[trigger] args@[i]),
                )
        },
        ctx.macro_invocations@.contains_key(id.0) ==> forall|i: int|
            0 <= i < ctx.macro_invocations@[id.0]@.len() ==> is_wanted(
                ctx,
                want_unused_functions,
                SomeId::Decl(#[trigger] ctx.macro_invocations@[id.0]@[i]),
            ),
{
    if let CExprKind::DeclRef(_, d, _) = ctx.expr_at(id).kind {
        law_what_expressions_need(ctx, id, SomeId::Decl(d));
        law_needs_of_wanted_are_wanted(
            ctx,
            want_unused_functions,
            SomeId::Expr(id),
            SomeId::Decl(d),
        );
    }
    if let CExprKind::Call(_, func, args) = ctx.expr_at(id).kind {
        law_what_expressions_need(ctx, id, SomeId::Expr(func));
        law_needs_of_wanted_are_wanted(
            ctx,
            want_unused_functions,
            SomeId::Expr(id),
            SomeId::Expr(func),
        );
        assert forall|i: int| 0 <= i < args@.len() implies is_wanted(
            ctx,
            want_unused_functions,
            SomeId::Expr(#[trigger] args@[i]),
        ) by {
            let x = SomeId::Expr(args@[i]);
            law_what_expressions_need(ctx, id, x);
            law_needs_of_wanted_are_wanted(ctx, want_unused_functions, SomeId::Expr(id), x);
        }
    }
    if ctx.macro_invocations@.contains_key(id.0) {
        let macros = ctx.macro_invocations@[id.0]@;
        assert forall|i: int| 0 <= i < macros.len() implies is_wanted(
            ctx,
            want_unused_functions,
            SomeId::Decl(#[trigger] macros[i]),
        ) by {
            let x = SomeId::Decl(macros[i]);
            law_what_expressions_need(ctx, id, x);
            law_needs_of_wanted_are_wanted(ctx, want_unused_functions, SomeId::Expr(id), x);
        }
    }
}

/// Two items that stand in this order.
pub open spec fn in_turn<A>(s: Seq<A>, first: A, second: A) -> bool {
    exists|i: int, j: int| 0 <= i < j < s.len() && s[i] == first && s[j] == second
}

pub(crate) proof fn lemma_filter_in_turn<A>(s: Seq<A>, keep: spec_fn(A) -> bool, first: A, second: A)
    ensures
        s.filter(keep).contains(first) <==> s.contains(first) && keep(first),
        in_turn(s.filter(keep), first, second) <==> in_turn(s, first, second) && keep(first)
            && keep(second),
    decreases s.len(),
{
    reveal(Seq::filter);
    if s.len() > 0 {
        let rest = s.drop_last();
        let last = s.last();
        lemma_filter_in_turn(rest, keep, first, second);
        assert(s =~= rest.push(last));
        let kept = rest.filter(keep);
        lemma_push_in_turn(rest, last, first, second);
        lemma_push_in_turn(kept, last, first, second);
    }
}

proof fn lemma_push_in_turn<A>(s: Seq<A>, last: A, first: A, second: A)
    ensures
        in_turn(s.push(last), first, second) <==> in_turn(s, first, second) || (s.contains(first)
            && second == last),
        s.push(last).contains(first) <==> s.contains(first) || first == last,
{
    let t = s.push(last);
    if in_turn(t, first, second) {
        let (i, j) = choose|i: int, j: int|
            0 <= i < j < t.len() && t[i] == first && t[j] == second;
        assert(s[i] == first);
        if j < s.len() {
            assert(s[j] == second);
        }
    }
    if in_turn(s, first, second) {
        let (i, j) = choose|i: int, j: int|
            0 <= i < j < s.len() && s[i] == first && s[j] == second;
        assert(t[i] == first && t[j] == second);
    }
    if s.contains(first) && second == last {
        let i = choose|i: int| 0 <= i < s.len() && s[i] == first;
        assert(t[i] == first && t[s.len() as int] == second);
    }
}

/// After pruning exactly the wanted declarations are left, as they were and in
/// their order; the main function is forgotten if it went; all else stays.
pub proof fn law_pruning_keeps_exactly_the_wanted(
    before: TypedAstContext,
    want_unused_functions: bool,
    after: TypedAstContext,
    d: CDeclId,
    e: CDeclId,
)
    requires
        is_pruned(before, want_unused_functions, after),
    ensures
        after.has_decl(d) <==> before.has_decl(d) && is_wanted(
            before,
            want_unused_functions,
            SomeId::Decl(d),
        ),
        after.has_decl(d) ==> after.decl_at(d) == before.decl_at(d),
        after.c_decls_top@.contains(d) <==> before.c_decls_top@.contains(d) && is_wanted(
            before,
            want_unused_functions,
            SomeId::Decl(d),
        ),
        in_turn(after.c_decls_top@, d, e) <==> in_turn(before.c_decls_top@, d, e) && is_wanted(
            before,
            want_unused_functions,
            SomeId::Decl(d),
        ) && is_wanted(before, want_unused_functions, SomeId::Decl(e)),
        in_turn(after.nodes.decl_order(), d.0, e.0) <==> in_turn(
            before.nodes.decl_order(),
            d.0,
            e.0,
        ) && is_wanted(before, want_unused_functions, SomeId::Decl(d)) && is_wanted(
            before,
            want_unused_functions,
            SomeId::Decl(e),
        ),
        after.c_main == Some(d) <==> before.c_main == Some(d) && is_wanted(
            before,
            want_unused_functions,
            SomeId::Decl(d),
        ),
        after.nodes.types() == before.nodes.types(),
        after.nodes.exprs() == before.nodes.exprs(),
        after.nodes.stmts() == before.nodes.stmts(),
        after.parents == before.parents,
        after.sources == before.sources,
        after.macro_invocations == before.macro_invocations,
        after.macro_expansions == before.macro_expansions,
        after.macro_expansion_text == before.macro_expansion_text,
        after.comments == before.comments,
        after.prenamed_decls == before.prenamed_decls,
        after.va_list_kind == before.va_list_kind,
        after.target == before.target,
{
    let keep = is_wanted_decl(before, want_unused_functions);
    let keep_id = |id: CDeclId| keep(id.0);
    assert(CDeclId(d.0) == d && CDeclId(e.0) == e);
    lemma_filter_in_turn(before.c_decls_top@, keep_id, d, e);
    lemma_filter_in_turn(before.nodes.decl_order(), keep, d.0, e.0);
}

/// A declaration that an expression of a kept one names is kept: what a
/// function calls stays with it.
pub proof fn law_named_declarations_stay(
    before: TypedAstContext,
    want_unused_functions: bool,
    after: TypedAstContext,
    id: CExprId,
    d: CDeclId,
)
    requires
        is_prunable(before, want_unused_functions),
        is_pruned(before, want_unused_functions, after),
        is_wanted(before, want_unused_functions, SomeId::Expr(id)),
        before.expr_at(id).kind matches CExprKind::DeclRef(_, named, _) && named == d,
    ensures
        after.has_decl(d),
        before.c_decls_top@.contains(d) ==> after.c_decls_top@.contains(d),
        before.c_main == Some(d) ==> after.c_main == Some(d),
{
    law_wanted_expressions_bring_what_they_name(before, want_unused_functions, id);
    law_pruning_keeps_exactly_the_wanted(before, want_unused_functions, after, d, d);
}

} // verus!
