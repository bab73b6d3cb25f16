use c_ast::{
    BinOp, CDeclId, CExprId, CExprKind, CLiteral, CQualTypeId, CTypeId, CastKind, IntBase, LRValue,
    MemberKind, UnOp,
};

const COMPOUND: [(BinOp, BinOp); 10] = [
    (BinOp::AssignAdd, BinOp::Add),
    (BinOp::AssignSubtract, BinOp::Subtract),
    (BinOp::AssignMultiply, BinOp::Multiply),
    (BinOp::AssignDivide, BinOp::Divide),
    (BinOp::AssignModulus, BinOp::Modulus),
    (BinOp::AssignBitXor, BinOp::BitXor),
    (BinOp::AssignShiftLeft, BinOp::ShiftLeft),
    (BinOp::AssignShiftRight, BinOp::ShiftRight),
    (BinOp::AssignBitOr, BinOp::BitOr),
    (BinOp::AssignBitAnd, BinOp::BitAnd),
];

#[test]
fn only_two_operators_are_postfix() {
    assert!(!UnOp::PostIncrement.is_prefix());
    assert!(!UnOp::PostDecrement.is_prefix());
    for op in [UnOp::PreIncrement, UnOp::Negate, UnOp::AddressOf, UnOp::Extension] {
        assert!(op.is_prefix());
    }
}

#[test]
fn compound_assignments_have_an_underlying_operator() {
    for (compound, under) in COMPOUND {
        assert_eq!(compound.underlying_assignment(), Some(under));
        assert!(compound.is_assignment());
        assert_eq!(under.underlying_assignment(), None);
        assert!(!under.is_assignment());
    }
}

#[test]
fn plain_assignment_has_no_underlying_operator() {
    assert_eq!(BinOp::Assign.underlying_assignment(), None);
    assert!(BinOp::Assign.is_assignment());
    assert!(!BinOp::Comma.is_assignment());
}

#[test]
fn numbers_are_true_unless_zero() {
    assert!(!CLiteral::Integer(0, IntBase::Dec).get_bool());
    assert!(CLiteral::Integer(1, IntBase::Hex).get_bool());
    assert!(!CLiteral::Character(0).get_bool());
    assert!(CLiteral::Character(97).get_bool());
    for (value, truth) in [(0.0f64, false), (-0.0, false), (1.5, true), (f64::NAN, true)] {
        let literal = CLiteral::Floating(value.to_bits(), value.to_string());
        assert_eq!(literal.get_bool(), truth);
        assert_eq!(value != 0.0, truth);
    }
}

#[test]
fn strings_are_true() {
    assert!(CLiteral::String(vec![], 1).get_bool());
    assert!(CLiteral::String(vec![0], 1).get_bool());
}

#[test]
fn only_literals_have_a_known_truth_value() {
    let ty = CQualTypeId::new(CTypeId(1));
    let zero = CExprKind::Literal(ty, CLiteral::Integer(0, IntBase::Oct));
    assert_eq!(zero.get_bool(), Some(false));
    assert_eq!(CExprKind::Paren(ty, CExprId(1)).get_bool(), None);
    assert_eq!(CExprKind::BadExpr.get_bool(), None);
}

#[test]
fn lvalues_are_marked_in_the_node() {
    let ty = CQualTypeId::new(CTypeId(1));
    let e = CExprId(1);
    let member = CExprKind::Member(ty, e, CDeclId(1), MemberKind::Dot, LRValue::LValue);
    assert_eq!(member.lrvalue(), LRValue::LValue);
    let cast = CExprKind::ImplicitCast(ty, e, CastKind::NoOp, None, LRValue::RValue);
    assert_eq!(cast.lrvalue(), LRValue::RValue);
    assert_eq!(CExprKind::Paren(ty, e).lrvalue(), LRValue::RValue);
    assert_eq!(CExprKind::BadExpr.lrvalue(), LRValue::RValue);
}

#[test]
fn only_bad_expressions_have_no_type() {
    let ty = CQualTypeId::new(CTypeId(8));
    assert_eq!(CExprKind::VAArg(ty, CExprId(1)).get_qual_type(), Some(ty));
    assert_eq!(CExprKind::ImplicitValueInit(ty).get_type(), Some(CTypeId(8)));
    let atomic = CExprKind::Atomic {
        typ: ty,
        name: String::from("__c11_atomic_load"),
        ptr: CExprId(1),
        order: CExprId(2),
        val1: None,
        order_fail: None,
        val2: None,
        weak: None,
    };
    assert_eq!(atomic.get_type(), Some(CTypeId(8)));
    assert_eq!(CExprKind::BadExpr.get_qual_type(), None);
    assert_eq!(CExprKind::BadExpr.get_type(), None);
}
