use c_ast::{
    BuiltinVaListKind, CDeclId, CDeclKind, CExprId, CExprKind, CLiteral, CQualTypeId, CTypeId,
    CTypeKind, CastKind, IntBase, LRValue, Located, TypedAstContext,
};

fn empty() -> TypedAstContext {
    TypedAstContext::new(&[])
}

fn t(id: u64) -> CTypeId {
    CTypeId(id)
}

fn q(id: u64) -> CQualTypeId {
    CQualTypeId::new(CTypeId(id))
}

fn e(id: u64) -> CExprId {
    CExprId(id)
}

fn add_type(ctx: &mut TypedAstContext, id: u64, kind: CTypeKind) {
    ctx.nodes.insert_type(id, Located { loc: None, kind });
}

fn add_expr(ctx: &mut TypedAstContext, id: u64, kind: CExprKind) {
    ctx.nodes.insert_expr(id, Located { loc: None, kind });
}

fn add_decl(ctx: &mut TypedAstContext, id: u64, kind: CDeclKind) {
    ctx.nodes.insert_decl(id, Located { loc: None, kind });
}

fn typedef(name: &str, target: u64) -> CDeclKind {
    CDeclKind::Typedef { name: String::from(name), typ: q(target), is_implicit: false }
}

fn record(name: &str, with_fields: bool, packed: bool, alignment: Option<u64>) -> CDeclKind {
    CDeclKind::Struct {
        name: Some(String::from(name)),
        fields: if with_fields { Some(vec![]) } else { None },
        is_packed: packed,
        manual_alignment: alignment,
        max_field_alignment: None,
        platform_byte_size: 0,
        platform_alignment: 1,
    }
}

fn cast(ty: u64, operand: u64, kind: CastKind) -> CExprKind {
    CExprKind::ImplicitCast(q(ty), e(operand), kind, None, LRValue::RValue)
}

fn number(value: u64) -> CExprKind {
    CExprKind::Literal(q(1), CLiteral::Integer(value, IntBase::Dec))
}

/// Type 1 is `int`, and each of the types 2 to 7 wraps the one before.
fn wrapped() -> TypedAstContext {
    let mut ctx = empty();
    add_type(&mut ctx, 1, CTypeKind::Int);
    add_type(&mut ctx, 2, CTypeKind::Attributed(q(1), None));
    add_type(&mut ctx, 3, CTypeKind::Elaborated(t(2)));
    add_type(&mut ctx, 4, CTypeKind::Decayed(t(3)));
    add_type(&mut ctx, 5, CTypeKind::TypeOf(t(4)));
    add_type(&mut ctx, 6, CTypeKind::Paren(t(5)));
    add_type(&mut ctx, 7, CTypeKind::Typedef(CDeclId(70)));
    add_decl(&mut ctx, 70, typedef("number", 6));
    ctx
}

#[test]
fn wrapped_types_come_down_to_one() {
    let ctx = wrapped();
    for id in 1..8 {
        assert_eq!(ctx.resolve_type_id(t(id)), t(1));
        assert_eq!(ctx.resolve_type(t(id)).kind, CTypeKind::Int);
        let once = ctx.resolve_type_id(t(id));
        assert_eq!(ctx.resolve_type_id(once), once);
    }
}

#[test]
fn indexing_looks_through_parentheses() {
    let mut ctx = empty();
    add_expr(&mut ctx, 1, number(4));
    add_expr(&mut ctx, 2, CExprKind::Paren(q(1), e(1)));
    add_expr(&mut ctx, 3, CExprKind::Paren(q(1), e(2)));
    assert_eq!(ctx[e(3)].kind.get_bool(), Some(true));
    assert!(matches!(ctx[e(9)].kind, CExprKind::BadExpr));
    assert!(ctx[e(9)].loc.is_none());
}

#[test]
fn null_pointers_are_seen_through_pointer_casts() {
    let mut ctx = wrapped();
    add_type(&mut ctx, 10, CTypeKind::Pointer(q(1)));
    add_expr(&mut ctx, 1, number(0));
    add_expr(&mut ctx, 2, cast(10, 1, CastKind::NullToPointer));
    add_expr(&mut ctx, 3, cast(10, 2, CastKind::BitCast));
    add_expr(&mut ctx, 4, cast(1, 2, CastKind::BitCast));
    add_expr(&mut ctx, 5, cast(10, 2, CastKind::NoOp));
    add_expr(&mut ctx, 6, CExprKind::Paren(q(10), e(3)));
    assert!(!ctx.is_null_expr(e(1)));
    assert!(ctx.is_null_expr(e(2)));
    assert!(ctx.is_null_expr(e(3)));
    assert!(!ctx.is_null_expr(e(4)));
    assert!(!ctx.is_null_expr(e(5)));
    assert!(ctx.is_null_expr(e(6)));
}

#[test]
fn forward_declarations_have_no_body() {
    let mut ctx = wrapped();
    add_decl(&mut ctx, 1, record("a", false, false, None));
    add_decl(&mut ctx, 2, record("a", true, false, None));
    add_decl(&mut ctx, 3, CDeclKind::Union { name: None, fields: None, is_packed: false });
    add_decl(&mut ctx, 4, CDeclKind::Enum { name: None, variants: vec![], integral_type: None });
    add_decl(
        &mut ctx,
        5,
        CDeclKind::Enum { name: None, variants: vec![], integral_type: Some(q(1)) },
    );
    add_type(&mut ctx, 11, CTypeKind::Struct(CDeclId(1)));
    add_type(&mut ctx, 12, CTypeKind::Struct(CDeclId(2)));
    add_type(&mut ctx, 13, CTypeKind::Union(CDeclId(3)));
    add_type(&mut ctx, 14, CTypeKind::Enum(CDeclId(4)));
    add_type(&mut ctx, 15, CTypeKind::Enum(CDeclId(5)));
    add_type(&mut ctx, 16, CTypeKind::Elaborated(t(11)));
    let expected = [(11, true), (12, false), (13, true), (14, true), (15, false), (16, true)];
    for (id, forward) in expected {
        assert_eq!(ctx.is_forward_declared_type(t(id)), forward);
    }
    assert!(!ctx.is_forward_declared_type(t(1)));
}

#[test]
fn the_last_typedef_names_the_builtin_va_list() {
    let mut ctx = wrapped();
    add_decl(&mut ctx, 1, typedef("__builtin_va_list", 1));
    add_decl(&mut ctx, 2, typedef("va_list", 21));
    add_decl(&mut ctx, 3, typedef("__builtin_va_list", 7));
    add_type(&mut ctx, 21, CTypeKind::Typedef(CDeclId(1)));
    add_type(&mut ctx, 22, CTypeKind::Typedef(CDeclId(2)));
    add_type(&mut ctx, 23, CTypeKind::Typedef(CDeclId(3)));
    assert!(ctx.is_builtin_va_list(t(21)));
    assert!(ctx.is_builtin_va_list(t(22)));
    assert!(!ctx.is_builtin_va_list(t(23)));
    assert!(!ctx.is_builtin_va_list(t(7)));
    assert!(!ctx.is_builtin_va_list(t(1)));
}

#[test]
fn va_lists_depend_on_the_target() {
    let mut ctx = wrapped();
    add_decl(&mut ctx, 1, record("__va_list_tag", true, false, None));
    add_decl(&mut ctx, 2, record("__va_list", true, false, None));
    add_decl(&mut ctx, 3, record("other", true, false, None));
    for id in 1..4 {
        add_type(&mut ctx, 30 + id, CTypeKind::Struct(CDeclId(id)));
        add_type(&mut ctx, 40 + id, CTypeKind::Pointer(q(30 + id)));
        add_type(&mut ctx, 50 + id, CTypeKind::ConstantArray(t(30 + id), 1));
        add_type(&mut ctx, 60 + id, CTypeKind::Pointer(q(50 + id)));
    }
    for kind in [
        BuiltinVaListKind::CharPtrBuiltinVaList,
        BuiltinVaListKind::VoidPtrBuiltinVaList,
        BuiltinVaListKind::X86_64ABIBuiltinVaList,
    ] {
        ctx.va_list_kind = kind;
        for id in [1, 2] {
            assert!(ctx.is_va_list(t(40 + id)));
            assert!(ctx.is_va_list(t(50 + id)));
            assert!(!ctx.is_va_list(t(30 + id)));
        }
        assert!(ctx.is_va_list(t(61)));
        assert!(!ctx.is_va_list(t(62)));
        assert!(!ctx.is_va_list(t(43)));
        assert!(!ctx.is_va_list(t(53)));
    }
    assert!(!ctx.is_va_list_struct(t(1)));
    for kind in [
        BuiltinVaListKind::AArch64ABIBuiltinVaList,
        BuiltinVaListKind::AAPCSABIBuiltinVaList,
    ] {
        ctx.va_list_kind = kind;
        assert!(ctx.is_va_list(t(32)));
        assert!(!ctx.is_va_list(t(42)));
        assert!(ctx.is_va_list(t(51)));
        assert!(!ctx.is_va_list(t(52)));
    }
}

#[test]
fn one_va_list_struct_in_an_array_implements_va_list() {
    let mut ctx = wrapped();
    add_decl(&mut ctx, 1, record("__va_list_tag", true, false, None));
    add_decl(&mut ctx, 2, record("__va_list", true, false, None));
    add_decl(&mut ctx, 3, record("other", true, false, None));
    for id in 1..4 {
        add_type(&mut ctx, 30 + id, CTypeKind::Struct(CDeclId(id)));
        add_type(&mut ctx, 40 + id, CTypeKind::Elaborated(t(30 + id)));
        add_type(&mut ctx, 50 + id, CTypeKind::ConstantArray(t(40 + id), 1));
        add_type(&mut ctx, 60 + id, CTypeKind::ConstantArray(t(40 + id), 2));
        add_type(&mut ctx, 70 + id, CTypeKind::ConstantArray(t(50 + id), 1));
        add_type(&mut ctx, 80 + id, CTypeKind::Pointer(q(40 + id)));
        add_type(&mut ctx, 90 + id, CTypeKind::ConstantArray(t(80 + id), 1));
    }
    for kind in [
        BuiltinVaListKind::CharPtrBuiltinVaList,
        BuiltinVaListKind::X86_64ABIBuiltinVaList,
        BuiltinVaListKind::AArch64ABIBuiltinVaList,
        BuiltinVaListKind::PowerABIBuiltinVaList,
    ] {
        ctx.va_list_kind = kind;
        for id in 1..4 {
            let tag = id != 3;
            assert_eq!(ctx.is_va_list_struct(t(30 + id)), tag);
            assert_eq!(ctx.is_va_list_struct(t(40 + id)), tag);
            assert_eq!(ctx.is_va_list_struct(t(50 + id)), id == 1);
            for other in [60, 70, 80, 90] {
                assert!(!ctx.is_va_list_struct(t(other + id)));
            }
        }
    }
}

#[test]
fn pointers_and_what_they_point_to() {
    let mut ctx = wrapped();
    add_type(&mut ctx, 10, CTypeKind::Pointer(q(1)));
    add_type(&mut ctx, 11, CTypeKind::Function(q(1), vec![], false, false, true));
    add_type(&mut ctx, 12, CTypeKind::Paren(t(11)));
    add_type(&mut ctx, 13, CTypeKind::Pointer(q(12)));
    add_type(&mut ctx, 14, CTypeKind::Elaborated(t(13)));
    assert!(ctx.is_function_pointer(t(14)));
    assert!(!ctx.is_function_pointer(t(10)));
    assert!(!ctx.is_function_pointer(t(12)));
    assert_eq!(ctx.get_pointee_qual_type(t(14)), Some(q(12)));
    assert_eq!(ctx.get_pointee_qual_type(t(1)), None);
}

#[test]
fn flexible_arrays_have_at_most_one_element() {
    let mut ctx = wrapped();
    add_type(&mut ctx, 10, CTypeKind::IncompleteArray(t(1)));
    add_type(&mut ctx, 11, CTypeKind::ConstantArray(t(1), 0));
    add_type(&mut ctx, 12, CTypeKind::ConstantArray(t(1), 1));
    add_type(&mut ctx, 13, CTypeKind::ConstantArray(t(1), 2));
    for (id, maybe) in [(10, true), (11, true), (12, true), (13, false), (1, false)] {
        assert_eq!(ctx.maybe_flexible_array(t(id)), maybe);
    }
}

#[test]
fn casts_are_looked_through() {
    let mut ctx = wrapped();
    add_expr(&mut ctx, 1, number(3));
    add_expr(&mut ctx, 2, cast(2, 1, CastKind::IntegralCast));
    add_expr(&mut ctx, 3, CExprKind::Paren(q(2), e(2)));
    add_expr(
        &mut ctx,
        4,
        CExprKind::ExplicitCast(q(3), e(3), CastKind::BitCast, None, LRValue::RValue),
    );
    let (id, kind) = ctx.resolve_expr(e(4));
    assert_eq!(id, e(1));
    assert_eq!(kind.get_bool(), Some(true));
    assert_eq!(ctx.resolve_expr(id).0, id);
    assert_eq!(ctx.resolve_expr_type_id(e(4)), Some((e(1), t(1))));
}

#[test]
fn references_have_the_type_of_what_they_name() {
    let mut ctx = wrapped();
    add_expr(&mut ctx, 1, CExprKind::DeclRef(q(2), CDeclId(70), LRValue::LValue));
    add_decl(&mut ctx, 71, CDeclKind::MacroObject { name: String::from("M") });
    add_expr(&mut ctx, 2, CExprKind::DeclRef(q(2), CDeclId(71), LRValue::LValue));
    assert_eq!(ctx.resolve_expr_type_id(e(1)), Some((e(1), t(1))));
    assert_eq!(ctx.resolve_expr_type_id(e(2)), Some((e(2), t(2))));
    assert_eq!(ctx.resolve_expr_type_id(e(9)), None);
}

#[test]
fn calls_of_functions_that_do_not_return_diverge() {
    let mut ctx = wrapped();
    add_type(&mut ctx, 10, CTypeKind::Function(q(1), vec![], false, true, true));
    add_type(&mut ctx, 11, CTypeKind::Function(q(1), vec![], false, false, true));
    add_type(&mut ctx, 20, CTypeKind::Pointer(q(10)));
    add_type(&mut ctx, 21, CTypeKind::Pointer(q(11)));
    add_expr(&mut ctx, 1, CExprKind::ImplicitValueInit(q(20)));
    add_expr(&mut ctx, 2, CExprKind::ImplicitValueInit(q(21)));
    add_expr(&mut ctx, 3, CExprKind::ImplicitValueInit(q(10)));
    for id in 1..5 {
        add_expr(&mut ctx, 10 + id, CExprKind::Call(q(1), e(id), vec![]));
    }
    assert!(ctx.expr_diverges(e(11)));
    assert!(!ctx.expr_diverges(e(12)));
    assert!(!ctx.expr_diverges(e(13)));
    assert!(!ctx.expr_diverges(e(14)));
    assert!(!ctx.expr_diverges(e(1)));
}

#[test]
fn packing_and_alignment_of_structs() {
    let mut ctx = wrapped();
    add_decl(&mut ctx, 1, record("plain", true, false, None));
    add_decl(&mut ctx, 2, record("packed", true, true, None));
    add_decl(&mut ctx, 3, record("aligned", true, false, Some(16)));
    add_decl(
        &mut ctx,
        4,
        CDeclKind::Struct {
            name: None,
            fields: None,
            is_packed: false,
            manual_alignment: None,
            max_field_alignment: Some(2),
            platform_byte_size: 0,
            platform_alignment: 1,
        },
    );
    add_decl(&mut ctx, 5, CDeclKind::Union { name: None, fields: None, is_packed: true });
    let expected = [
        (1, false, false),
        (2, true, false),
        (3, false, true),
        (4, true, false),
        (5, false, false),
    ];
    for (id, packed, inner) in expected {
        assert_eq!(ctx.is_packed_struct_decl(CDeclId(id)), packed);
        assert_eq!(ctx.has_inner_struct_decl(CDeclId(id)), inner);
    }
    add_type(&mut ctx, 10, CTypeKind::Struct(CDeclId(3)));
    add_type(&mut ctx, 11, CTypeKind::Elaborated(t(10)));
    add_type(&mut ctx, 12, CTypeKind::Struct(CDeclId(1)));
    assert!(ctx.is_aligned_struct_type(t(11)));
    assert!(!ctx.is_aligned_struct_type(t(12)));
    assert!(!ctx.is_aligned_struct_type(t(1)));
}

#[test]
fn names_of_declarations() {
    let name = |kind: CDeclKind| kind.get_name().map(|n| n.to_string());
    assert_eq!(name(typedef("number", 1)), Some(String::from("number")));
    assert_eq!(name(record("point", true, false, None)), Some(String::from("point")));
    let anonymous = CDeclKind::Union { name: None, fields: None, is_packed: false };
    assert_eq!(name(anonymous), None);
    let object = CDeclKind::MacroObject { name: String::from("M") };
    assert_eq!(name(object), Some(String::from("M")));
    let function = CDeclKind::MacroFunction { name: String::from("F") };
    assert_eq!(name(function), None);
    assert_eq!(name(CDeclKind::NonCanonicalDecl { canonical_decl: CDeclId(1) }), None);
}

#[test]
fn declarations_stay_in_the_order_of_insertion() {
    let mut ctx = empty();
    for id in [5, 3, 9, 3, 1] {
        let name = format!("t{}", id);
        add_decl(&mut ctx, id, typedef(&name, 1));
    }
    let order: Vec<u64> = ctx.iter_decls().iter().map(|(id, _)| id.0).collect();
    assert_eq!(order, vec![5, 3, 9, 1]);
    assert!(ctx.get_decl(&CDeclId(9)).is_some());
    assert!(ctx.get_decl(&CDeclId(2)).is_none());
    let (id, decl) = ctx.iter_mut_decls(1).unwrap();
    assert_eq!(id, CDeclId(3));
    decl.kind = typedef("renamed", 1);
    assert_eq!(ctx[CDeclId(3)].kind.get_name().unwrap(), "renamed");
    assert_eq!(ctx[CDeclId(5)].kind.get_name().unwrap(), "t5");
    assert!(ctx.iter_mut_decls(4).is_none());
}

#[test]
fn later_declarations_replace_earlier_ones() {
    let mut ctx = empty();
    add_decl(&mut ctx, 1, typedef("old", 1));
    add_decl(&mut ctx, 2, typedef("other", 1));
    add_decl(&mut ctx, 1, typedef("new", 1));
    let names: Vec<String> =
        ctx.iter_decls().iter().map(|(_, d)| d.kind.get_name().unwrap().to_string()).collect();
    assert_eq!(names, vec!["new", "other"]);
    let copy = ctx.clone();
    assert_eq!(copy.iter_decls().len(), 2);
}
