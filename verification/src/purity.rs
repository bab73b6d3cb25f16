//! Which expressions can be evaluated without a side effect.

use crate::context::{law_no_parentheses_are_left, TypedAstContext};
use crate::exprs::{BinOp, CExprKind, OffsetOfKind, UnOp};
use crate::ids::{CExprId, SomeId};
use crate::prune::needs;
use crate::prune_laws::law_what_expressions_need;
use std::ops::Index;
use vstd::prelude::*;

verus! {

/// The operands that the purity of an expression depends on, in the order in
/// which they are looked at. `None` where the node itself has a side effect,
/// or might have one.
pub open spec fn pure_operands(kind: CExprKind) -> Option<Seq<CExprId>> {
    match kind {
        CExprKind::BadExpr => None,
        CExprKind::ShuffleVector(_, _) => None,
        CExprKind::ConvertVector(_, _) => None,
        CExprKind::Call(_, _, _) => None,
        CExprKind::InitList(_, _, _, _) => None,
        CExprKind::ImplicitValueInit(_) => None,
        CExprKind::Predefined(_, _) => None,
        CExprKind::Statements(_, _) => None,
        CExprKind::VAArg(_, _) => None,
        CExprKind::Atomic { .. } => None,
        CExprKind::Literal(_, _) => Some(Seq::empty()),
        CExprKind::DeclRef(_, _, _) => Some(Seq::empty()),
        CExprKind::UnaryType(_, _, _, _) => Some(Seq::empty()),
        CExprKind::OffsetOf(_, OffsetOfKind::Constant(_)) => Some(Seq::empty()),
        CExprKind::OffsetOf(_, OffsetOfKind::Variable(_, _, e)) => Some(seq![e]),
        CExprKind::ConstantExpr(_, _, _) => Some(Seq::empty()),
        CExprKind::DesignatedInitExpr(_, _, e) => Some(seq![e]),
        CExprKind::ImplicitCast(_, e, _, _, _) => Some(seq![e]),
        CExprKind::ExplicitCast(_, e, _, _, _) => Some(seq![e]),
        CExprKind::Member(_, e, _, _, _) => Some(seq![e]),
        CExprKind::Paren(_, e) => Some(seq![e]),
        CExprKind::CompoundLiteral(_, e) => Some(seq![e]),
        CExprKind::Unary(_, op, e, _) => if op is PreIncrement || op is PostIncrement
            || op is PreDecrement || op is PostDecrement {
            None
        } else {
            Some(seq![e])
        },
        CExprKind::Binary(_, op, lhs, rhs, _, _) => if op.spec_is_assignment() {
            None
        } else {
            Some(seq![lhs, rhs])
        },
        CExprKind::ArraySubscript(_, lhs, rhs, _) => Some(seq![lhs, rhs]),
        CExprKind::Conditional(_, c, lhs, rhs) => Some(seq![c, lhs, rhs]),
        CExprKind::BinaryConditional(_, c, rhs) => Some(seq![c, rhs]),
        CExprKind::Choose(_, c, lhs, rhs, _) => Some(seq![c, lhs, rhs]),
    }
}

/// Whether the expression is pure, as far as looking `depth` levels down
/// tells. Nothing is looked at after an operand that is not pure.
pub open spec fn pure_within(ctx: TypedAstContext, id: CExprId, depth: nat) -> Option<bool>
    decreases depth, 0nat,
{
    if depth == 0 || !ctx.has_expr(id) {
        None
    } else {
        match pure_operands(ctx.expr_at(id).kind) {
            None => Some(false),
            Some(operands) => all_pure_within(ctx, operands, (depth - 1) as nat),
        }
    }
}

/// Whether all the expressions are pure, as far as looking `depth` levels down
/// tells.
pub open spec fn all_pure_within(ctx: TypedAstContext, ids: Seq<CExprId>, depth: nat) -> Option<
    bool,
>
    decreases depth, ids.len() + 1,
{
    if ids.len() == 0 {
        Some(true)
    } else {
        match pure_within(ctx, ids[0], depth) {
            Some(true) => all_pure_within(ctx, ids.drop_first(), depth),
            other => other,
        }
    }
}

proof fn lemma_deeper(ctx: TypedAstContext, id: CExprId, depth: nat, more: nat)
    requires
        pure_within(ctx, id, depth) is Some,
        depth <= more,
    ensures
        pure_within(ctx, id, more) == pure_within(ctx, id, depth),
    decreases depth, 0nat,
{
    if let Some(operands) = pure_operands(ctx.expr_at(id).kind) {
        lemma_all_deeper(ctx, operands, (depth - 1) as nat, (more - 1) as nat);
    }
}

proof fn lemma_all_deeper(ctx: TypedAstContext, ids: Seq<CExprId>, depth: nat, more: nat)
    requires
        all_pure_within(ctx, ids, depth) is Some,
        depth <= more,
    ensures
        all_pure_within(ctx, ids, more) == all_pure_within(ctx, ids, depth),
    decreases depth, ids.len() + 1,
{
    if ids.len() > 0 {
        lemma_deeper(ctx, ids[0], depth, more);
        if pure_within(ctx, ids[0], depth) == Some(true) {
            lemma_all_deeper(ctx, ids.drop_first(), depth, more);
        }
    }
}

/// A look at the leading operand, then at the rest.
proof fn lemma_first_of(ctx: TypedAstContext, ids: Seq<CExprId>, depth: nat)
    requires
        ids.len() > 0,
    ensures
        all_pure_within(ctx, ids, depth) == match pure_within(ctx, ids[0], depth) {
            Some(true) => all_pure_within(ctx, ids.drop_first(), depth),
            other => other,
        },
{
}

impl TypedAstContext {
    /// The question whether the expression is pure can be answered.
    pub open spec fn purity_known(&self, expr: CExprId) -> bool {
        exists|depth: nat| pure_within(*self, expr, depth) is Some
    }

    /// The expression is known to have no side effect.
    pub open spec fn is_pure(&self, expr: CExprId) -> bool {
        exists|depth: nat| pure_within(*self, expr, depth) == Some(true)
    }

    fn pure_one(&self, a: CExprId, Ghost(depth): Ghost<nat>) -> (r: bool)
        requires
            all_pure_within(*self, seq![a], depth) is Some,
        ensures
            all_pure_within(*self, seq![a], depth) == Some(r),
        decreases depth, 1nat,
    {
        proof {
            lemma_first_of(*self, seq![a], depth);
            assert(seq![a].drop_first() =~= Seq::empty());
        }
        self.pure_at(a, Ghost(depth))
    }

    fn pure_two(&self, a: CExprId, b: CExprId, Ghost(depth): Ghost<nat>) -> (r: bool)
        requires
            all_pure_within(*self, seq![a, b], depth) is Some,
        ensures
            all_pure_within(*self, seq![a, b], depth) == Some(r),
        decreases depth, 2nat,
    {
        proof {
            lemma_first_of(*self, seq![a, b], depth);
            assert(seq![a, b].drop_first() =~= seq![b]);
        }
        self.pure_at(a, Ghost(depth)) && self.pure_one(b, Ghost(depth))
    }

    fn pure_three(&self, a: CExprId, b: CExprId, c: CExprId, Ghost(depth): Ghost<nat>) -> (r: bool)
        requires
            all_pure_within(*self, seq![a, b, c], depth) is Some,
        ensures
            all_pure_within(*self, seq![a, b, c], depth) == Some(r),
        decreases depth, 3nat,
    {
        proof {
            lemma_first_of(*self, seq![a, b, c], depth);
            assert(seq![a, b, c].drop_first() =~= seq![b, c]);
        }
        self.pure_at(a, Ghost(depth)) && self.pure_two(b, c, Ghost(depth))
    }

    fn pure_at(&self, expr: CExprId, Ghost(depth): Ghost<nat>) -> (r: bool)
        requires
            pure_within(*self, expr, depth) is Some,
        ensures
            pure_within(*self, expr, depth) == Some(r),
        decreases depth, 0nat,
    {
        let ghost below = (depth - 1) as nat;
        match &self.index(expr).kind {
            CExprKind::BadExpr
            | CExprKind::ShuffleVector(_, _)
            | CExprKind::ConvertVector(_, _)
            | CExprKind::Call(_, _, _)
            | CExprKind::InitList(_, _, _, _)
            | CExprKind::ImplicitValueInit(_)
            | CExprKind::Predefined(_, _)
            | CExprKind::Statements(_, _)
            | CExprKind::VAArg(_, _)
            | CExprKind::Atomic { .. } => false,
            CExprKind::Literal(_, _)
            | CExprKind::DeclRef(_, _, _)
            | CExprKind::UnaryType(_, _, _, _)
            | CExprKind::OffsetOf(_, OffsetOfKind::Constant(_))
            | CExprKind::ConstantExpr(_, _, _) => true,
            CExprKind::OffsetOf(_, OffsetOfKind::Variable(_, _, e))
            | CExprKind::DesignatedInitExpr(_, _, e)
            | CExprKind::ImplicitCast(_, e, _, _, _)
            | CExprKind::ExplicitCast(_, e, _, _, _)
            | CExprKind::Member(_, e, _, _, _)
            | CExprKind::Paren(_, e)
            | CExprKind::CompoundLiteral(_, e) => self.pure_one(*e, Ghost(below)),
            CExprKind::Unary(_, op, e, _) => match *op {
                UnOp::PreIncrement
                | UnOp::PostIncrement
                | UnOp::PreDecrement
                | UnOp::PostDecrement => false,
                _ => self.pure_one(*e, Ghost(below)),
            },
            CExprKind::Binary(_, op, lhs, rhs, _, _) => {
                if op.is_assignment() {
                    false
                } else {
                    self.pure_two(*lhs, *rhs, Ghost(below))
                }
            },
            CExprKind::ArraySubscript(_, lhs, rhs, _) => self.pure_two(*lhs, *rhs, Ghost(below)),
            CExprKind::Conditional(_, c, lhs, rhs) => self.pure_three(
                *c,
                *lhs,
                *rhs,
                Ghost(below),
            ),
            CExprKind::BinaryConditional(_, c, rhs) => self.pure_two(*c, *rhs, Ghost(below)),
            CExprKind::Choose(_, c, lhs, rhs, _) => self.pure_three(*c, *lhs, *rhs, Ghost(below)),
        }
    }

    /// Pessimistically try to check if an expression has side effects. If it
    /// does, or we can't tell that it doesn't, return `false`.
    pub fn is_expr_pure(&self, expr: CExprId) -> (r: bool)
        requires
            self.purity_known(expr),
        ensures
            r == self.is_pure(expr),
    {
        let ghost depth = choose|depth: nat| pure_within(*self, expr, depth) is Some;
        let r = self.pure_at(expr, Ghost(depth));
        proof {
            if self.is_pure(expr) {
                let other = choose|other: nat| pure_within(*self, expr, other) == Some(true);
                if depth <= other {
                    lemma_deeper(*self, expr, depth, other);
                } else {
                    lemma_deeper(*self, expr, other, depth);
                }
            }
        }
        r
    }
}

proof fn lemma_all_pure(ctx: TypedAstContext, ids: Seq<CExprId>, depth: nat)
    ensures
        all_pure_within(ctx, ids, depth) == Some(true) ==> forall|i: int|
            0 <= i < ids.len() ==> pure_within(ctx, #[trigger] ids[i], depth) == Some(true),
        (forall|i: int|
            0 <= i < ids.len() ==> pure_within(ctx, #[trigger] ids[i], depth) == Some(true))
            ==> all_pure_within(ctx, ids, depth) == Some(true),
    decreases ids.len(),
{
    if ids.len() > 0 {
        let rest = ids.drop_first();
        lemma_all_pure(ctx, rest, depth);
        if all_pure_within(ctx, ids, depth) == Some(true) {
            assert forall|i: int| 0 <= i < ids.len() implies pure_within(
                ctx,
                #[trigger] ids[i],
                depth,
            ) == Some(true) by {
                if i > 0 {
                    assert(rest[i - 1] == ids[i]);
                }
            }
        }
        if forall|i: int|
            0 <= i < ids.len() ==> pure_within(ctx, #[trigger] ids[i], depth) == Some(true) {
            assert forall|i: int| 0 <= i < rest.len() implies pure_within(
                ctx,
                #[trigger] rest[i],
                depth,
            ) == Some(true) by {
                assert(rest[i] == ids[i + 1]);
            }
            assert(pure_within(ctx, ids[0], depth) == Some(true));
        }
    }
}

proof fn lemma_common_depth(ctx: TypedAstContext, ids: Seq<CExprId>) -> (depth: nat)
    requires
        forall|i: int| 0 <= i < ids.len() ==> ctx.is_pure(#[trigger] ids[i]),
    ensures
        forall|i: int|
            0 <= i < ids.len() ==> pure_within(ctx, #[trigger] ids[i], depth) == Some(true),
    decreases ids.len(),
{
    if ids.len() == 0 {
        0
    } else {
        let rest = ids.drop_last();
        assert forall|i: int| 0 <= i < rest.len() implies ctx.is_pure(#[trigger] rest[i]) by {
            assert(rest[i] == ids[i]);
        }
        let a = lemma_common_depth(ctx, rest);
        let last = ids[ids.len() - 1];
        assert(ctx.is_pure(last));
        let b = choose|b: nat| pure_within(ctx, last, b) == Some(true);
        let depth = if a <= b {
            b
        } else {
            a
        };
        assert forall|i: int| 0 <= i < ids.len() implies pure_within(
            ctx,
            #[trigger] ids[i],
            depth,
        ) == Some(true) by {
            if i < rest.len() {
                assert(rest[i] == ids[i]);
                lemma_deeper(ctx, ids[i], a, depth);
            } else {
                lemma_deeper(ctx, ids[i], b, depth);
            }
        }
        depth
    }
}

/// An expression is pure exactly if its own node has no side effect and all
/// its operands are pure.
pub proof fn law_pure_iff_operands_pure(ctx: TypedAstContext, expr: CExprId)
    requires
        ctx.has_expr(expr),
    ensures
        ctx.is_pure(expr) <==> {
            &&& pure_operands(ctx.expr_at(expr).kind) matches Some(operands)
            &&& forall|i: int| 0 <= i < operands.len() ==> ctx.is_pure(#[trigger] operands[i])
        },
{
    if let Some(operands) = pure_operands(ctx.expr_at(expr).kind) {
        if ctx.is_pure(expr) {
            let depth = choose|depth: nat| pure_within(ctx, expr, depth) == Some(true);
            lemma_all_pure(ctx, operands, (depth - 1) as nat);
        }
        if forall|i: int| 0 <= i < operands.len() ==> ctx.is_pure(#[trigger] operands[i]) {
            let depth = lemma_common_depth(ctx, operands);
            lemma_all_pure(ctx, operands, depth);
            assert(pure_within(ctx, expr, depth + 1) == Some(true));
        }
    }
}

/// Which expressions are pure, by what they are made of: a literal, a name and
/// what is not evaluated always; a call, an assignment, an increment and what
/// cannot be told never; anything else exactly if all its operands are.
pub proof fn law_which_expressions_are_pure(ctx: TypedAstContext, expr: CExprId)
    requires
        ctx.has_expr(expr),
    ensures
        ctx.is_pure(expr) <==> match ctx.expr_at(expr).kind {
            CExprKind::Literal(_, _)
            | CExprKind::DeclRef(_, _, _)
            | CExprKind::UnaryType(_, _, _, _)
            | CExprKind::OffsetOf(_, OffsetOfKind::Constant(_))
            | CExprKind::ConstantExpr(_, _, _) => true,
            CExprKind::OffsetOf(_, OffsetOfKind::Variable(_, _, index)) => ctx.is_pure(index),
            CExprKind::DesignatedInitExpr(_, _, e) => ctx.is_pure(e),
            CExprKind::ImplicitCast(_, e, _, _, _) => ctx.is_pure(e),
            CExprKind::ExplicitCast(_, e, _, _, _) => ctx.is_pure(e),
            CExprKind::Member(_, e, _, _, _) => ctx.is_pure(e),
            CExprKind::Paren(_, e) => ctx.is_pure(e),
            CExprKind::CompoundLiteral(_, e) => ctx.is_pure(e),
            CExprKind::Unary(_, op, e, _) => {
                &&& op != UnOp::PreIncrement
                &&& op != UnOp::PostIncrement
                &&& op != UnOp::PreDecrement
                &&& op != UnOp::PostDecrement
                &&& ctx.is_pure(e)
            },
            CExprKind::Binary(_, op, lhs, rhs, _, _) => {
                &&& match op {
                    BinOp::Assign
                    | BinOp::AssignAdd
                    | BinOp::AssignSubtract
                    | BinOp::AssignMultiply
                    | BinOp::AssignDivide
                    | BinOp::AssignModulus
                    | BinOp::AssignBitXor
                    | BinOp::AssignShiftLeft
                    | BinOp::AssignShiftRight
                    | BinOp::AssignBitOr
                    | BinOp::AssignBitAnd => false,
                    _ => true,
                }
                &&& ctx.is_pure(lhs)
                &&& ctx.is_pure(rhs)
            },
            CExprKind::ArraySubscript(_, lhs, rhs, _) => ctx.is_pure(lhs) && ctx.is_pure(rhs),
            CExprKind::Conditional(_, c, lhs, rhs) => {
                ctx.is_pure(c) && ctx.is_pure(lhs) && ctx.is_pure(rhs)
            },
            CExprKind::BinaryConditional(_, c, rhs) => ctx.is_pure(c) && ctx.is_pure(rhs),
            CExprKind::Choose(_, c, lhs, rhs, _) => {
                ctx.is_pure(c) && ctx.is_pure(lhs) && ctx.is_pure(rhs)
            },
            CExprKind::BadExpr
            | CExprKind::ShuffleVector(_, _)
            | CExprKind::ConvertVector(_, _)
            | CExprKind::Call(_, _, _)
            | CExprKind::InitList(_, _, _, _)
            | CExprKind::ImplicitValueInit(_)
            | CExprKind::Predefined(_, _)
            | CExprKind::Statements(_, _)
            | CExprKind::VAArg(_, _)
            | CExprKind::Atomic { .. } => false,
        },
{
    law_pure_iff_operands_pure(ctx, expr);
    if let Some(operands) = pure_operands(ctx.expr_at(expr).kind) {
        if forall|i: int| 0 <= i < operands.len() ==> ctx.is_pure(#[trigger] operands[i]) {
            if operands.len() > 0 {
                assert(ctx.is_pure(operands[0]));
            }
            if operands.len() > 1 {
                assert(ctx.is_pure(operands[1]));
            }
            if operands.len() > 2 {
                assert(ctx.is_pure(operands[2]));
            }
        }
    }
}

/// Evaluating `outer` evaluates `inner`, `n` levels down. The operand of a type
/// operator is not evaluated, nor is a constant.
pub open spec fn evaluates(
    ctx: TypedAstContext,
    outer: CExprId,
    inner: CExprId,
    n: nat,
) -> bool
    decreases n,
{
    if n == 0 {
        outer == inner
    } else {
        &&& !(ctx.expr_at(outer).kind is UnaryType)
        &&& !(ctx.expr_at(outer).kind is ConstantExpr)
        &&& exists|next: CExprId|
            #[trigger] needs(ctx, SomeId::Expr(outer), SomeId::Expr(next)) && evaluates(
                ctx,
                next,
                inner,
                (n - 1) as nat,
            )
    }
}

/// Whatever a pure expression evaluates, however far down, is pure: there is no
/// call, no assignment, no increment and no statement in it.
pub proof fn law_nothing_in_a_pure_expression_has_an_effect(
    ctx: TypedAstContext,
    outer: CExprId,
    inner: CExprId,
    n: nat,
)
    requires
        ctx.is_pure(outer),
        evaluates(ctx, outer, inner, n),
    ensures
        ctx.is_pure(inner),
        match ctx.expr_at(inner).kind {
            CExprKind::Call(_, _, _) => false,
            CExprKind::Statements(_, _) => false,
            CExprKind::VAArg(_, _) => false,
            CExprKind::Atomic { .. } => false,
            CExprKind::BadExpr => false,
            CExprKind::Unary(_, op, _, _) => {
                &&& op != UnOp::PreIncrement
                &&& op != UnOp::PostIncrement
                &&& op != UnOp::PreDecrement
                &&& op != UnOp::PostDecrement
            },
            CExprKind::Binary(_, op, _, _, _, _) => match op {
                BinOp::Assign
                | BinOp::AssignAdd
                | BinOp::AssignSubtract
                | BinOp::AssignMultiply
                | BinOp::AssignDivide
                | BinOp::AssignModulus
                | BinOp::AssignBitXor
                | BinOp::AssignShiftLeft
                | BinOp::AssignShiftRight
                | BinOp::AssignBitOr
                | BinOp::AssignBitAnd => false,
                _ => true,
            },
            _ => true,
        },
    decreases n,
{
    assert(ctx.has_expr(outer)) by {
        let depth = choose|depth: nat| pure_within(ctx, outer, depth) == Some(true);
    }
    law_which_expressions_are_pure(ctx, outer);
    law_no_parentheses_are_left(ctx, outer);
    if n > 0 {
        let next = choose|next: CExprId|
            #[trigger] needs(ctx, SomeId::Expr(outer), SomeId::Expr(next)) && evaluates(
                ctx,
                next,
                inner,
                (n - 1) as nat,
            );
        law_what_expressions_need(ctx, outer, SomeId::Expr(next));
        law_nothing_in_a_pure_expression_has_an_effect(ctx, next, inner, (n - 1) as nat);
    }
}

} // verus!
