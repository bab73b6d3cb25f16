use c_ast::{
    BinOp, CDeclId, CExprId, CExprKind, CLiteral, CQualTypeId, CTypeId, CastKind, IntBase, LRValue,
    Located, MemberKind, OffsetOfKind, TypedAstContext, UnOp, UnTypeOp,
};

fn q() -> CQualTypeId {
    CQualTypeId::new(CTypeId(1))
}

/// Expression 1 is pure, and expression 2 is not.
fn context() -> TypedAstContext {
    let mut ctx = TypedAstContext::new(&[]);
    let number = CExprKind::Literal(q(), CLiteral::Integer(1, IntBase::Dec));
    ctx.nodes.insert_expr(1, Located { loc: None, kind: number });
    let call = CExprKind::Call(q(), CExprId(1), vec![]);
    ctx.nodes.insert_expr(2, Located { loc: None, kind: call });
    ctx
}

fn is_pure(kind: CExprKind) -> bool {
    let mut ctx = context();
    ctx.nodes.insert_expr(3, Located { loc: None, kind });
    ctx.is_expr_pure(CExprId(3))
}

#[test]
fn leaves_are_pure() {
    assert!(is_pure(CExprKind::DeclRef(q(), CDeclId(1), LRValue::LValue)));
    assert!(is_pure(CExprKind::UnaryType(q(), UnTypeOp::SizeOf, Some(CExprId(2)), q())));
    assert!(is_pure(CExprKind::OffsetOf(q(), OffsetOfKind::Constant(4))));
    assert!(is_pure(CExprKind::ConstantExpr(q(), CExprId(2), None)));
}

#[test]
fn an_offset_is_as_pure_as_its_index() {
    let offset = |id| CExprKind::OffsetOf(q(), OffsetOfKind::Variable(q(), CDeclId(1), CExprId(id)));
    assert!(is_pure(offset(1)));
    assert!(!is_pure(offset(2)));
    let mut ctx = context();
    let kind = CExprKind::Unary(q(), UnOp::PostIncrement, CExprId(1), LRValue::RValue);
    ctx.nodes.insert_expr(4, Located { loc: None, kind });
    ctx.nodes.insert_expr(5, Located { loc: None, kind: offset(4) });
    assert!(!ctx.is_expr_pure(CExprId(5)));
}

#[test]
fn what_may_have_an_effect_is_not_pure() {
    let e = CExprId(1);
    assert!(!is_pure(CExprKind::BadExpr));
    assert!(!is_pure(CExprKind::Call(q(), e, vec![e])));
    assert!(!is_pure(CExprKind::InitList(q(), vec![], None, None)));
    assert!(!is_pure(CExprKind::ImplicitValueInit(q())));
    assert!(!is_pure(CExprKind::Predefined(q(), e)));
    assert!(!is_pure(CExprKind::VAArg(q(), e)));
    assert!(!is_pure(CExprKind::ShuffleVector(q(), vec![])));
    assert!(!context().is_expr_pure(CExprId(99)));
}

#[test]
fn increments_are_not_pure() {
    let unary = |op, id| is_pure(CExprKind::Unary(q(), op, CExprId(id), LRValue::RValue));
    for op in [UnOp::PreIncrement, UnOp::PostIncrement, UnOp::PreDecrement, UnOp::PostDecrement] {
        assert!(!unary(op, 1));
    }
    assert!(unary(UnOp::Negate, 1));
    assert!(!unary(UnOp::Negate, 2));
}

#[test]
fn assignments_are_not_pure() {
    let e = CExprId(1);
    let binary = |op| is_pure(CExprKind::Binary(q(), op, e, e, None, None));
    assert!(!binary(BinOp::Assign));
    assert!(!binary(BinOp::AssignAdd));
    assert!(binary(BinOp::Add));
    assert!(binary(BinOp::Comma));
}

#[test]
fn purity_is_that_of_all_operands() {
    let ids = [CExprId(1), CExprId(2)];
    for a in ids {
        let pure_a = a.0 == 1;
        assert_eq!(is_pure(CExprKind::Paren(q(), a)), pure_a);
        assert_eq!(is_pure(CExprKind::CompoundLiteral(q(), a)), pure_a);
        assert_eq!(is_pure(CExprKind::DesignatedInitExpr(q(), vec![], a)), pure_a);
        let member = CExprKind::Member(q(), a, CDeclId(1), MemberKind::Arrow, LRValue::LValue);
        assert_eq!(is_pure(member), pure_a);
        let cast = CExprKind::ExplicitCast(q(), a, CastKind::ToVoid, None, LRValue::RValue);
        assert_eq!(is_pure(cast), pure_a);
        for b in ids {
            let both = pure_a && b.0 == 1;
            assert_eq!(is_pure(CExprKind::BinaryConditional(q(), a, b)), both);
            assert_eq!(is_pure(CExprKind::ArraySubscript(q(), a, b, LRValue::LValue)), both);
            for c in ids {
                let all = both && c.0 == 1;
                assert_eq!(is_pure(CExprKind::Conditional(q(), a, b, c)), all);
                assert_eq!(is_pure(CExprKind::Choose(q(), a, b, c, true)), all);
            }
        }
    }
}

#[test]
fn deep_expressions_are_looked_at_to_the_bottom() {
    for (bottom, pure) in [(1, true), (2, false)] {
        let mut ctx = context();
        let mut last = bottom;
        for id in 10..60 {
            let kind = CExprKind::Conditional(q(), CExprId(1), CExprId(last), CExprId(1));
            ctx.nodes.insert_expr(id, Located { loc: None, kind });
            last = id;
        }
        assert_eq!(ctx.is_expr_pure(CExprId(last)), pure);
    }
}
