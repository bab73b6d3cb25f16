//! The nodes that a node is made of.
//!
//! A node is made of the types, expressions, statements and declarations that
//! it holds. A mere reference to something that is declared elsewhere is not
//! part of it: the target of an elaborated type, the declaration that an
//! expression names, the field that a member access picks, the label that a
//! `goto` jumps to.

use crate::context::TypedAstContext;
use crate::decls::CDeclKind;
use crate::exprs::{CExprKind, OffsetOfKind};
use crate::ids::{CDeclId, CExprId, CStmtId, SomeId};
use crate::stmts::{AsmOperand, CStmtKind};
use crate::types::{CQualTypeId, CTypeKind};
use std::ops::Index;
use vstd::prelude::*;

verus! {

pub open spec fn expr_nodes(ids: Seq<CExprId>) -> Seq<SomeId> {
    ids.map_values(|id: CExprId| SomeId::Expr(id))
}

pub open spec fn stmt_nodes(ids: Seq<CStmtId>) -> Seq<SomeId> {
    ids.map_values(|id: CStmtId| SomeId::Stmt(id))
}

pub open spec fn decl_nodes(ids: Seq<CDeclId>) -> Seq<SomeId> {
    ids.map_values(|id: CDeclId| SomeId::Decl(id))
}

pub open spec fn type_nodes(types: Seq<CQualTypeId>) -> Seq<SomeId> {
    types.map_values(|typ: CQualTypeId| SomeId::Type(typ.ctype))
}

pub open spec fn operand_nodes(operands: Seq<AsmOperand>) -> Seq<SomeId> {
    operands.map_values(|operand: AsmOperand| SomeId::Expr(operand.expression))
}

pub open spec fn optional_expr(id: Option<CExprId>) -> Seq<SomeId> {
    match id {
        Some(id) => seq![SomeId::Expr(id)],
        None => Seq::empty(),
    }
}

pub open spec fn optional_stmt(id: Option<CStmtId>) -> Seq<SomeId> {
    match id {
        Some(id) => seq![SomeId::Stmt(id)],
        None => Seq::empty(),
    }
}

pub open spec fn optional_type(typ: Option<CQualTypeId>) -> Seq<SomeId> {
    match typ {
        Some(typ) => seq![SomeId::Type(typ.ctype)],
        None => Seq::empty(),
    }
}

/// What an expression is made of: its type first.
pub open spec fn expr_children(kind: CExprKind) -> Seq<SomeId> {
    match kind {
        CExprKind::BadExpr => Seq::empty(),
        CExprKind::Literal(ty, _) => seq![SomeId::Type(ty.ctype)],
        CExprKind::DeclRef(ty, _, _) => seq![SomeId::Type(ty.ctype)],
        CExprKind::ImplicitValueInit(ty) => seq![SomeId::Type(ty.ctype)],
        CExprKind::Unary(ty, _, e, _) => seq![SomeId::Type(ty.ctype), SomeId::Expr(e)],
        CExprKind::UnaryType(ty, _, e, arg) => seq![
            SomeId::Type(ty.ctype),
            SomeId::Type(arg.ctype),
        ] + optional_expr(e),
        CExprKind::OffsetOf(ty, OffsetOfKind::Constant(_)) => seq![SomeId::Type(ty.ctype)],
        CExprKind::OffsetOf(ty, OffsetOfKind::Variable(record, _, e)) => seq![
            SomeId::Type(ty.ctype),
            SomeId::Type(record.ctype),
            SomeId::Expr(e),
        ],
        CExprKind::Binary(ty, _, lhs, rhs, lhs_type, result_type) => seq![
            SomeId::Type(ty.ctype),
            SomeId::Expr(lhs),
            SomeId::Expr(rhs),
        ] + optional_type(lhs_type) + optional_type(result_type),
        CExprKind::ImplicitCast(ty, e, _, _, _) => seq![SomeId::Type(ty.ctype), SomeId::Expr(e)],
        CExprKind::ExplicitCast(ty, e, _, _, _) => seq![SomeId::Type(ty.ctype), SomeId::Expr(e)],
        CExprKind::ConstantExpr(ty, e, _) => seq![SomeId::Type(ty.ctype), SomeId::Expr(e)],
        CExprKind::Call(ty, func, args) => seq![SomeId::Type(ty.ctype), SomeId::Expr(func)]
            + expr_nodes(args@),
        CExprKind::Member(ty, e, _, _, _) => seq![SomeId::Type(ty.ctype), SomeId::Expr(e)],
        CExprKind::ArraySubscript(ty, base, index, _) => seq![
            SomeId::Type(ty.ctype),
            SomeId::Expr(base),
            SomeId::Expr(index),
        ],
        CExprKind::Conditional(ty, c, lhs, rhs) => seq![
            SomeId::Type(ty.ctype),
            SomeId::Expr(c),
            SomeId::Expr(lhs),
            SomeId::Expr(rhs),
        ],
        CExprKind::BinaryConditional(ty, c, rhs) => seq![
            SomeId::Type(ty.ctype),
            SomeId::Expr(c),
            SomeId::Expr(rhs),
        ],
        CExprKind::InitList(ty, inits, _, _) => seq![SomeId::Type(ty.ctype)] + expr_nodes(inits@),
        CExprKind::Paren(ty, e) => seq![SomeId::Type(ty.ctype), SomeId::Expr(e)],
        CExprKind::CompoundLiteral(ty, e) => seq![SomeId::Type(ty.ctype), SomeId::Expr(e)],
        CExprKind::Predefined(ty, e) => seq![SomeId::Type(ty.ctype), SomeId::Expr(e)],
        CExprKind::Statements(ty, s) => seq![SomeId::Type(ty.ctype), SomeId::Stmt(s)],
        CExprKind::VAArg(ty, e) => seq![SomeId::Type(ty.ctype), SomeId::Expr(e)],
        CExprKind::ShuffleVector(ty, es) => seq![SomeId::Type(ty.ctype)] + expr_nodes(es@),
        CExprKind::ConvertVector(ty, es) => seq![SomeId::Type(ty.ctype)] + expr_nodes(es@),
        CExprKind::DesignatedInitExpr(ty, _, e) => seq![SomeId::Type(ty.ctype), SomeId::Expr(e)],
        CExprKind::Choose(ty, c, lhs, rhs, _) => seq![
            SomeId::Type(ty.ctype),
            SomeId::Expr(c),
            SomeId::Expr(lhs),
            SomeId::Expr(rhs),
        ],
        CExprKind::Atomic { typ, name: _, ptr, order, val1, order_fail, val2, weak } => seq![
            SomeId::Type(typ.ctype),
            SomeId::Expr(ptr),
            SomeId::Expr(order),
        ] + optional_expr(val1) + optional_expr(order_fail) + optional_expr(val2) + optional_expr(
            weak,
        ),
    }
}

/// What a statement is made of.
pub open spec fn stmt_children(kind: CStmtKind) -> Seq<SomeId> {
    match kind {
        CStmtKind::Label(s) => seq![SomeId::Stmt(s)],
        CStmtKind::Case(e, s, _) => seq![SomeId::Expr(e), SomeId::Stmt(s)],
        CStmtKind::Default(s) => seq![SomeId::Stmt(s)],
        CStmtKind::Compound(ss) => stmt_nodes(ss@),
        CStmtKind::Expr(e) => seq![SomeId::Expr(e)],
        CStmtKind::Empty => Seq::empty(),
        CStmtKind::If { scrutinee, true_variant, false_variant } => seq![
            SomeId::Expr(scrutinee),
            SomeId::Stmt(true_variant),
        ] + optional_stmt(false_variant),
        CStmtKind::Switch { scrutinee, body } => seq![SomeId::Expr(scrutinee), SomeId::Stmt(body)],
        CStmtKind::While { condition, body } => seq![SomeId::Expr(condition), SomeId::Stmt(body)],
        CStmtKind::DoWhile { body, condition } => seq![SomeId::Stmt(body), SomeId::Expr(condition)],
        CStmtKind::ForLoop { init, condition, increment, body } => optional_stmt(init)
            + optional_expr(condition) + optional_expr(increment) + seq![SomeId::Stmt(body)],
        CStmtKind::Goto(_) => Seq::empty(),
        CStmtKind::Break => Seq::empty(),
        CStmtKind::Continue => Seq::empty(),
        CStmtKind::Return(e) => optional_expr(e),
        CStmtKind::Decls(decls) => decl_nodes(decls@),
        CStmtKind::Asm { inputs, outputs, .. } => operand_nodes(inputs@) + operand_nodes(outputs@),
    }
}

/// What a declaration is made of.
pub open spec fn decl_children(kind: CDeclKind) -> Seq<SomeId> {
    match kind {
        CDeclKind::Function { typ, parameters, body, .. } => seq![SomeId::Type(typ)] + decl_nodes(
            parameters@,
        ) + optional_stmt(body),
        CDeclKind::Variable { typ, initializer, .. } => seq![SomeId::Type(typ.ctype)]
            + optional_expr(initializer),
        CDeclKind::Enum { variants, integral_type, .. } => optional_type(integral_type)
            + decl_nodes(variants@),
        CDeclKind::EnumConstant { .. } => Seq::empty(),
        CDeclKind::Typedef { typ, .. } => seq![SomeId::Type(typ.ctype)],
        CDeclKind::Struct { fields: Some(fields), .. } => decl_nodes(fields@),
        CDeclKind::Struct { fields: None, .. } => Seq::empty(),
        CDeclKind::Union { fields: Some(fields), .. } => decl_nodes(fields@),
        CDeclKind::Union { fields: None, .. } => Seq::empty(),
        CDeclKind::Field { typ, .. } => seq![SomeId::Type(typ.ctype)],
        CDeclKind::MacroObject { .. } => Seq::empty(),
        CDeclKind::MacroFunction { .. } => Seq::empty(),
        CDeclKind::NonCanonicalDecl { canonical_decl } => seq![SomeId::Decl(canonical_decl)],
        CDeclKind::StaticAssert { assert_expr, message } => seq![SomeId::Expr(assert_expr)]
            + optional_expr(message),
    }
}

/// What a type is made of; for a typedef, record or enum, its declaration.
pub open spec fn type_children(kind: CTypeKind) -> Seq<SomeId> {
    match kind {
        CTypeKind::Complex(t) => seq![SomeId::Type(t)],
        CTypeKind::Pointer(q) => seq![SomeId::Type(q.ctype)],
        CTypeKind::Reference(q) => seq![SomeId::Type(q.ctype)],
        CTypeKind::ConstantArray(t, _) => seq![SomeId::Type(t)],
        CTypeKind::IncompleteArray(t) => seq![SomeId::Type(t)],
        CTypeKind::VariableArray(t, e) => seq![SomeId::Type(t)] + optional_expr(e),
        CTypeKind::TypeOf(t) => seq![SomeId::Type(t)],
        CTypeKind::TypeOfExpr(e) => seq![SomeId::Expr(e)],
        CTypeKind::Function(result, params, _, _, _) => seq![SomeId::Type(result.ctype)]
            + type_nodes(params@),
        CTypeKind::Typedef(d) => seq![SomeId::Decl(d)],
        CTypeKind::Decayed(t) => seq![SomeId::Type(t)],
        CTypeKind::Paren(t) => seq![SomeId::Type(t)],
        CTypeKind::Struct(d) => seq![SomeId::Decl(d)],
        CTypeKind::Union(d) => seq![SomeId::Decl(d)],
        CTypeKind::Enum(d) => seq![SomeId::Decl(d)],
        CTypeKind::Attributed(q, _) => seq![SomeId::Type(q.ctype)],
        CTypeKind::BlockPointer(q) => seq![SomeId::Type(q.ctype)],
        CTypeKind::Vector(q, _) => seq![SomeId::Type(q.ctype)],
        _ => Seq::empty(),
    }
}

/// What a node is made of.
pub open spec fn children(ctx: TypedAstContext, id: SomeId) -> Seq<SomeId> {
    match id {
        SomeId::Stmt(id) => stmt_children(ctx.stmt_at(id).kind),
        SomeId::Expr(id) => expr_children(ctx.expr_at(id).kind),
        SomeId::Decl(id) => decl_children(ctx.decl_at(id).kind),
        SomeId::Type(id) => type_children(ctx.type_at(id).kind),
    }
}

fn push_exprs(out: &mut Vec<SomeId>, ids: &Vec<CExprId>)
    ensures
        final(out)@ == old(out)@ + expr_nodes(ids@),
{
    let mut i: usize = 0;
    while i < ids.len()
        invariant
            i <= ids.len(),
            out@ =~= old(out)@ + expr_nodes(ids@.take(i as int)),
        decreases ids.len() - i,
    {
        out.push(SomeId::Expr(ids[i]));
        i = i + 1;
    }
    assert(ids@.take(ids@.len() as int) =~= ids@);
}

fn push_stmts(out: &mut Vec<SomeId>, ids: &Vec<CStmtId>)
    ensures
        final(out)@ == old(out)@ + stmt_nodes(ids@),
{
    let mut i: usize = 0;
    while i < ids.len()
        invariant
            i <= ids.len(),
            out@ =~= old(out)@ + stmt_nodes(ids@.take(i as int)),
        decreases ids.len() - i,
    {
        out.push(SomeId::Stmt(ids[i]));
        i = i + 1;
    }
    assert(ids@.take(ids@.len() as int) =~= ids@);
}

pub(crate) fn push_decls(out: &mut Vec<SomeId>, ids: &Vec<CDeclId>)
    ensures
        final(out)@ == old(out)@ + decl_nodes(ids@),
{
    let mut i: usize = 0;
    while i < ids.len()
        invariant
            i <= ids.len(),
            out@ =~= old(out)@ + decl_nodes(ids@.take(i as int)),
        decreases ids.len() - i,
    {
        out.push(SomeId::Decl(ids[i]));
        i = i + 1;
    }
    assert(ids@.take(ids@.len() as int) =~= ids@);
}

fn push_types(out: &mut Vec<SomeId>, types: &Vec<CQualTypeId>)
    ensures
        final(out)@ == old(out)@ + type_nodes(types@),
{
    let mut i: usize = 0;
    while i < types.len()
        invariant
            i <= types.len(),
            out@ =~= old(out)@ + type_nodes(types@.take(i as int)),
        decreases types.len() - i,
    {
        out.push(SomeId::Type(types[i].ctype));
        i = i + 1;
    }
    assert(types@.take(types@.len() as int) =~= types@);
}

fn push_operands(out: &mut Vec<SomeId>, operands: &Vec<AsmOperand>)
    ensures
        final(out)@ == old(out)@ + operand_nodes(operands@),
{
    let mut i: usize = 0;
    while i < operands.len()
        invariant
            i <= operands.len(),
            out@ =~= old(out)@ + operand_nodes(operands@.take(i as int)),
        decreases operands.len() - i,
    {
        out.push(SomeId::Expr(operands[i].expression));
        i = i + 1;
    }
    assert(operands@.take(operands@.len() as int) =~= operands@);
}

fn push_optional_expr(out: &mut Vec<SomeId>, id: Option<CExprId>)
    ensures
        final(out)@ == old(out)@ + optional_expr(id),
{
    if let Some(id) = id {
        out.push(SomeId::Expr(id));
    }
    assert(out@ =~= old(out)@ + optional_expr(id));
}

fn push_optional_stmt(out: &mut Vec<SomeId>, id: Option<CStmtId>)
    ensures
        final(out)@ == old(out)@ + optional_stmt(id),
{
    if let Some(id) = id {
        out.push(SomeId::Stmt(id));
    }
    assert(out@ =~= old(out)@ + optional_stmt(id));
}

fn push_optional_type(out: &mut Vec<SomeId>, typ: Option<CQualTypeId>)
    ensures
        final(out)@ == old(out)@ + optional_type(typ),
{
    if let Some(typ) = typ {
        out.push(SomeId::Type(typ.ctype));
    }
    assert(out@ =~= old(out)@ + optional_type(typ));
}

/// What an expression is made of.
pub fn immediate_expr_children(kind: &CExprKind) -> (r: Vec<SomeId>)
    ensures
        r@ == expr_children(*kind),
{
    let mut out: Vec<SomeId> = Vec::new();
    if let Some(ty) = kind.get_type() {
        out.push(SomeId::Type(ty));
    }
    match kind {
        CExprKind::BadExpr
        | CExprKind::Literal(_, _)
        | CExprKind::DeclRef(_, _, _)
        | CExprKind::ImplicitValueInit(_) => {},
        CExprKind::Unary(_, _, e, _)
        | CExprKind::ImplicitCast(_, e, _, _, _)
        | CExprKind::ExplicitCast(_, e, _, _, _)
        | CExprKind::ConstantExpr(_, e, _)
        | CExprKind::Member(_, e, _, _, _)
        | CExprKind::Paren(_, e)
        | CExprKind::CompoundLiteral(_, e)
        | CExprKind::Predefined(_, e)
        | CExprKind::VAArg(_, e)
        | CExprKind::DesignatedInitExpr(_, _, e) => {
            out.push(SomeId::Expr(*e));
        },
        CExprKind::UnaryType(_, _, e, arg) => {
            out.push(SomeId::Type(arg.ctype));
            push_optional_expr(&mut out, *e);
        },
        CExprKind::OffsetOf(_, OffsetOfKind::Constant(_)) => {},
        CExprKind::OffsetOf(_, OffsetOfKind::Variable(record, _, e)) => {
            out.push(SomeId::Type(record.ctype));
            out.push(SomeId::Expr(*e));
        },
        CExprKind::Binary(_, _, lhs, rhs, lhs_type, result_type) => {
            out.push(SomeId::Expr(*lhs));
            out.push(SomeId::Expr(*rhs));
            push_optional_type(&mut out, *lhs_type);
            push_optional_type(&mut out, *result_type);
        },
        CExprKind::Call(_, func, args) => {
            out.push(SomeId::Expr(*func));
            push_exprs(&mut out, args);
        },
        CExprKind::ArraySubscript(_, base, index, _) => {
            out.push(SomeId::Expr(*base));
            out.push(SomeId::Expr(*index));
        },
        CExprKind::Conditional(_, c, lhs, rhs) | CExprKind::Choose(_, c, lhs, rhs, _) => {
            out.push(SomeId::Expr(*c));
            out.push(SomeId::Expr(*lhs));
            out.push(SomeId::Expr(*rhs));
        },
        CExprKind::BinaryConditional(_, c, rhs) => {
            out.push(SomeId::Expr(*c));
            out.push(SomeId::Expr(*rhs));
        },
        CExprKind::InitList(_, es, _, _)
        | CExprKind::ShuffleVector(_, es)
        | CExprKind::ConvertVector(_, es) => {
            push_exprs(&mut out, es);
        },
        CExprKind::Statements(_, s) => {
            out.push(SomeId::Stmt(*s));
        },
        CExprKind::Atomic { typ: _, name: _, ptr, order, val1, order_fail, val2, weak } => {
            out.push(SomeId::Expr(*ptr));
            out.push(SomeId::Expr(*order));
            push_optional_expr(&mut out, *val1);
            push_optional_expr(&mut out, *order_fail);
            push_optional_expr(&mut out, *val2);
            push_optional_expr(&mut out, *weak);
        },
    }
    assert(out@ =~= expr_children(*kind));
    out
}

/// What a statement is made of.
pub fn immediate_stmt_children(kind: &CStmtKind) -> (r: Vec<SomeId>)
    ensures
        r@ == stmt_children(*kind),
{
    let mut out: Vec<SomeId> = Vec::new();
    match kind {
        CStmtKind::Label(s) | CStmtKind::Default(s) => {
            out.push(SomeId::Stmt(*s));
        },
        CStmtKind::Case(e, s, _) => {
            out.push(SomeId::Expr(*e));
            out.push(SomeId::Stmt(*s));
        },
        CStmtKind::Compound(ss) => {
            push_stmts(&mut out, ss);
        },
        CStmtKind::Expr(e) => {
            out.push(SomeId::Expr(*e));
        },
        CStmtKind::Empty | CStmtKind::Goto(_) | CStmtKind::Break | CStmtKind::Continue => {},
        CStmtKind::If { scrutinee, true_variant, false_variant } => {
            out.push(SomeId::Expr(*scrutinee));
            out.push(SomeId::Stmt(*true_variant));
            push_optional_stmt(&mut out, *false_variant);
        },
        CStmtKind::Switch { scrutinee, body } => {
            out.push(SomeId::Expr(*scrutinee));
            out.push(SomeId::Stmt(*body));
        },
        CStmtKind::While { condition, body } => {
            out.push(SomeId::Expr(*condition));
            out.push(SomeId::Stmt(*body));
        },
        CStmtKind::DoWhile { body, condition } => {
            out.push(SomeId::Stmt(*body));
            out.push(SomeId::Expr(*condition));
        },
        CStmtKind::ForLoop { init, condition, increment, body } => {
            push_optional_stmt(&mut out, *init);
            push_optional_expr(&mut out, *condition);
            push_optional_expr(&mut out, *increment);
            out.push(SomeId::Stmt(*body));
        },
        CStmtKind::Return(e) => {
            push_optional_expr(&mut out, *e);
        },
        CStmtKind::Decls(decls) => {
            push_decls(&mut out, decls);
        },
        CStmtKind::Asm { inputs, outputs, .. } => {
            push_operands(&mut out, inputs);
            push_operands(&mut out, outputs);
        },
    }
    assert(out@ =~= stmt_children(*kind));
    out
}

/// What a declaration is made of.
pub fn immediate_decl_children(kind: &CDeclKind) -> (r: Vec<SomeId>)
    ensures
        r@ == decl_children(*kind),
{
    let mut out: Vec<SomeId> = Vec::new();
    match kind {
        CDeclKind::Function { typ, parameters, body, .. } => {
            out.push(SomeId::Type(*typ));
            push_decls(&mut out, parameters);
            push_optional_stmt(&mut out, *body);
        },
        CDeclKind::Variable { typ, initializer, .. } => {
            out.push(SomeId::Type(typ.ctype));
            push_optional_expr(&mut out, *initializer);
        },
        CDeclKind::Enum { variants, integral_type, .. } => {
            push_optional_type(&mut out, *integral_type);
            push_decls(&mut out, variants);
        },
        CDeclKind::Typedef { typ, .. } | CDeclKind::Field { typ, .. } => {
            out.push(SomeId::Type(typ.ctype));
        },
        CDeclKind::Struct { fields: Some(fields), .. }
        | CDeclKind::Union { fields: Some(fields), .. } => {
            push_decls(&mut out, fields);
        },
        CDeclKind::NonCanonicalDecl { canonical_decl } => {
            out.push(SomeId::Decl(*canonical_decl));
        },
        CDeclKind::StaticAssert { assert_expr, message } => {
            out.push(SomeId::Expr(*assert_expr));
            push_optional_expr(&mut out, *message);
        },
        _ => {},
    }
    assert(out@ =~= decl_children(*kind));
    out
}

/// What a type is made of.
pub fn immediate_type_children(kind: &CTypeKind) -> (r: Vec<SomeId>)
    ensures
        r@ == type_children(*kind),
{
    let mut out: Vec<SomeId> = Vec::new();
    match kind {
        CTypeKind::Complex(t)
        | CTypeKind::ConstantArray(t, _)
        | CTypeKind::IncompleteArray(t)
        | CTypeKind::TypeOf(t)
        | CTypeKind::Decayed(t)
        | CTypeKind::Paren(t) => {
            out.push(SomeId::Type(*t));
        },
        CTypeKind::Pointer(q)
        | CTypeKind::Reference(q)
        | CTypeKind::Attributed(q, _)
        | CTypeKind::BlockPointer(q)
        | CTypeKind::Vector(q, _) => {
            out.push(SomeId::Type(q.ctype));
        },
        CTypeKind::VariableArray(t, e) => {
            out.push(SomeId::Type(*t));
            push_optional_expr(&mut out, *e);
        },
        CTypeKind::TypeOfExpr(e) => {
            out.push(SomeId::Expr(*e));
        },
        CTypeKind::Function(result, params, _, _, _) => {
            out.push(SomeId::Type(result.ctype));
            push_types(&mut out, params);
        },
        CTypeKind::Typedef(d)
        | CTypeKind::Struct(d)
        | CTypeKind::Union(d)
        | CTypeKind::Enum(d) => {
            out.push(SomeId::Decl(*d));
        },
        _ => {},
    }
    assert(out@ =~= type_children(*kind));
    out
}

impl TypedAstContext {
    /// What a node is made of.
    pub fn immediate_children(&self, id: SomeId) -> (r: Vec<SomeId>)
        requires
            self.has_node(id),
        ensures
            r@ == children(*self, id),
    {
        match id {
            SomeId::Stmt(id) => immediate_stmt_children(&self.index(id).kind),
            SomeId::Expr(id) => immediate_expr_children(&self.index(id).kind),
            SomeId::Decl(id) => immediate_decl_children(&self.index(id).kind),
            SomeId::Type(id) => immediate_type_children(&self.index(id).kind),
        }
    }
}

} // verus!
