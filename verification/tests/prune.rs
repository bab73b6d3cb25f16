use c_ast::{
    AsmOperand, Attribute, AttributeSet, CDeclId, CDeclKind, CExprId, CExprKind, CLiteral,
    CQualTypeId, CStmtId, CStmtKind, CTypeId, CTypeKind, ConstIntExpr, IntBase, LRValue, Located,
    SomeId, SrcFile, SrcLoc, SrcSpan, TypedAstContext,
};

fn q(id: u64) -> CQualTypeId {
    CQualTypeId::new(CTypeId(id))
}

fn add_type(ctx: &mut TypedAstContext, id: u64, kind: CTypeKind) {
    ctx.nodes.insert_type(id, Located { loc: None, kind });
}

fn add_expr(ctx: &mut TypedAstContext, id: u64, kind: CExprKind) {
    ctx.nodes.insert_expr(id, Located { loc: None, kind });
}

fn add_stmt(ctx: &mut TypedAstContext, id: u64, kind: CStmtKind) {
    ctx.nodes.insert_stmt(id, Located { loc: None, kind });
}

fn add_decl(ctx: &mut TypedAstContext, id: u64, kind: CDeclKind) {
    ctx.nodes.insert_decl(id, Located { loc: None, kind });
}

struct Function {
    global: bool,
    inline: bool,
    visible: bool,
    body: Option<u64>,
    used: bool,
}

fn attributes(used: bool) -> AttributeSet {
    let mut attrs = AttributeSet::new();
    if used {
        attrs.insert(&Attribute::Used);
    }
    attrs
}

fn function(f: Function) -> CDeclKind {
    CDeclKind::Function {
        is_global: f.global,
        is_inline: f.inline,
        is_implicit: false,
        is_extern: false,
        is_inline_externally_visible: f.visible,
        typ: CTypeId(2),
        name: String::from("f"),
        parameters: vec![],
        body: f.body.map(CStmtId),
        attrs: attributes(f.used),
    }
}

fn variable(defn: bool, visible: bool, used: bool, init: Option<u64>, typ: u64) -> CDeclKind {
    CDeclKind::Variable {
        has_static_duration: true,
        has_thread_duration: false,
        is_externally_visible: visible,
        is_defn: defn,
        ident: String::from("v"),
        initializer: init.map(CExprId),
        typ: q(typ),
        attrs: attributes(used),
    }
}

/// Type 1 is `int`, type 2 is `int (void)`, and statement 1 is empty.
fn context() -> TypedAstContext {
    let mut ctx = TypedAstContext::new(&[]);
    add_type(&mut ctx, 1, CTypeKind::Int);
    add_type(&mut ctx, 2, CTypeKind::Function(q(1), vec![], false, false, true));
    add_stmt(&mut ctx, 1, CStmtKind::Empty);
    ctx
}

fn kept(ctx: &TypedAstContext) -> Vec<u64> {
    ctx.iter_decls().iter().map(|(id, _)| id.0).collect()
}

fn is_kept(kind: CDeclKind, want_unused_functions: bool) -> bool {
    let mut ctx = context();
    add_decl(&mut ctx, 1, kind);
    ctx.c_decls_top.push(CDeclId(1));
    ctx.c_main = Some(CDeclId(1));
    ctx.prune_unwanted_decls(want_unused_functions);
    let stays = ctx.get_decl(&CDeclId(1)).is_some();
    assert_eq!(ctx.c_decls_top.len() == 1, stays);
    assert_eq!(ctx.c_main.is_some(), stays);
    stays
}

#[test]
fn functions_are_kept_by_visibility() {
    for bits in 0..32u32 {
        let bit = |n: u32| bits & (1 << n) != 0;
        let make = || Function {
            global: bit(0),
            inline: bit(1),
            visible: bit(2),
            body: if bit(3) { Some(1) } else { None },
            used: bit(4),
        };
        let f = make();
        let visible = f.body.is_some() && f.global && (!f.inline || f.visible);
        assert_eq!(is_kept(function(make()), false), visible || f.used);
        assert_eq!(is_kept(function(make()), true), f.body.is_some() || f.used);
    }
}

#[test]
fn variables_are_kept_by_visibility() {
    for bits in 0..8u32 {
        let bit = |n: u32| bits & (1 << n) != 0;
        let kind = variable(bit(0), bit(1), bit(2), None, 1);
        let expected = (bit(0) && bit(1)) || bit(2);
        assert_eq!(is_kept(kind.clone(), false), expected);
        assert_eq!(is_kept(kind, true), expected);
    }
}

#[test]
fn other_declarations_are_not_kept_for_their_own_sake() {
    let typedef = CDeclKind::Typedef { name: String::from("t"), typ: q(1), is_implicit: false };
    assert!(!is_kept(typedef, true));
    assert!(!is_kept(CDeclKind::MacroObject { name: String::from("M") }, true));
}

/// A visible function whose body is one statement.
fn with_body(ctx: &mut TypedAstContext, body: CStmtKind) {
    add_stmt(ctx, 100, body);
    let f = Function { global: true, inline: false, visible: false, body: Some(100), used: false };
    add_decl(ctx, 100, function(f));
    ctx.c_decls_top.push(CDeclId(100));
}

#[test]
fn what_the_body_names_is_kept() {
    let mut ctx = context();
    add_decl(&mut ctx, 1, variable(true, false, false, Some(2), 1));
    add_decl(&mut ctx, 2, variable(true, false, false, None, 1));
    add_decl(&mut ctx, 3, variable(true, false, false, None, 1));
    add_expr(&mut ctx, 1, CExprKind::DeclRef(q(1), CDeclId(1), LRValue::LValue));
    add_expr(&mut ctx, 2, CExprKind::DeclRef(q(1), CDeclId(2), LRValue::LValue));
    with_body(&mut ctx, CStmtKind::Return(Some(CExprId(1))));
    for id in [3, 2, 1] {
        ctx.c_decls_top.push(CDeclId(id));
    }
    ctx.c_main = Some(CDeclId(100));
    ctx.prune_unwanted_decls(false);
    assert_eq!(kept(&ctx), vec![1, 2, 100]);
    assert_eq!(ctx.c_decls_top, vec![CDeclId(100), CDeclId(2), CDeclId(1)]);
    assert_eq!(ctx.c_main, Some(CDeclId(100)));
}

#[test]
fn pruning_twice_changes_nothing_more() {
    let mut ctx = context();
    add_decl(&mut ctx, 1, variable(true, false, false, None, 1));
    add_decl(&mut ctx, 2, variable(true, true, false, None, 1));
    ctx.c_decls_top = vec![CDeclId(1), CDeclId(2)];
    ctx.prune_unwanted_decls(false);
    let once = (kept(&ctx), ctx.c_decls_top.clone());
    ctx.prune_unwanted_decls(false);
    assert_eq!((kept(&ctx), ctx.c_decls_top.clone()), once);
    assert_eq!(once.0, vec![2]);
}

#[test]
fn elaborated_types_keep_their_declaration() {
    let mut ctx = context();
    let field = |typ| CDeclKind::Field {
        name: String::from("x"),
        typ: q(typ),
        bitfield_width: None,
        platform_bit_offset: 0,
        platform_type_bitwidth: 32,
    };
    let record = |fields| CDeclKind::Struct {
        name: None,
        fields,
        is_packed: false,
        manual_alignment: None,
        max_field_alignment: None,
        platform_byte_size: 4,
        platform_alignment: 4,
    };
    // The two records hold pointers to each other.
    add_decl(&mut ctx, 1, record(Some(vec![CDeclId(2)])));
    add_decl(&mut ctx, 2, field(22));
    add_decl(&mut ctx, 3, record(Some(vec![CDeclId(4)])));
    add_decl(&mut ctx, 4, field(12));
    add_decl(&mut ctx, 5, record(None));
    add_type(&mut ctx, 10, CTypeKind::Struct(CDeclId(1)));
    add_type(&mut ctx, 11, CTypeKind::Elaborated(CTypeId(10)));
    add_type(&mut ctx, 12, CTypeKind::Pointer(q(11)));
    add_type(&mut ctx, 20, CTypeKind::Struct(CDeclId(3)));
    add_type(&mut ctx, 21, CTypeKind::Elaborated(CTypeId(20)));
    add_type(&mut ctx, 22, CTypeKind::Pointer(q(21)));
    add_decl(&mut ctx, 6, variable(true, true, false, None, 12));
    ctx.c_decls_top = vec![CDeclId(1), CDeclId(3), CDeclId(5), CDeclId(6)];
    ctx.prune_unwanted_decls(false);
    assert_eq!(kept(&ctx), vec![1, 2, 3, 4, 6]);
    assert_eq!(ctx.c_decls_top, vec![CDeclId(1), CDeclId(3), CDeclId(6)]);
}

#[test]
fn an_enum_constant_keeps_the_whole_enum() {
    let mut ctx = context();
    let constant = |n: u64| CDeclKind::EnumConstant {
        name: format!("E{}", n),
        value: ConstIntExpr::U(n),
    };
    add_decl(&mut ctx, 1, constant(1));
    add_decl(&mut ctx, 2, constant(2));
    let variants = vec![CDeclId(1), CDeclId(2)];
    add_decl(&mut ctx, 3, CDeclKind::Enum { name: None, variants, integral_type: Some(q(1)) });
    ctx.parents.insert(1, CDeclId(3));
    ctx.parents.insert(2, CDeclId(3));
    add_expr(&mut ctx, 1, CExprKind::DeclRef(q(1), CDeclId(2), LRValue::RValue));
    with_body(&mut ctx, CStmtKind::Expr(CExprId(1)));
    ctx.c_decls_top.push(CDeclId(3));
    ctx.prune_unwanted_decls(false);
    assert_eq!(kept(&ctx), vec![1, 2, 3, 100]);
}

#[test]
fn macros_behind_an_expression_are_kept() {
    let mut ctx = context();
    add_decl(&mut ctx, 1, CDeclKind::MacroObject { name: String::from("M") });
    add_decl(&mut ctx, 2, CDeclKind::MacroObject { name: String::from("N") });
    add_decl(&mut ctx, 3, CDeclKind::MacroFunction { name: String::from("F") });
    ctx.macro_invocations.insert(1, vec![CDeclId(1), CDeclId(3)]);
    ctx.macro_invocations.insert(9, vec![CDeclId(2)]);
    add_expr(&mut ctx, 1, CExprKind::Literal(q(1), CLiteral::Integer(1, IntBase::Dec)));
    let operand = AsmOperand { constraints: String::from("r"), expression: CExprId(1) };
    let body = CStmtKind::Asm {
        asm_text: String::from("nop"),
        inputs: vec![],
        outputs: vec![operand],
        clobbers: vec![],
        is_volatile: true,
    };
    with_body(&mut ctx, body);
    ctx.prune_unwanted_decls(false);
    assert_eq!(kept(&ctx), vec![1, 3, 100]);
}

#[test]
fn local_declarations_are_kept() {
    let mut ctx = context();
    add_decl(&mut ctx, 1, variable(true, false, false, None, 1));
    with_body(&mut ctx, CStmtKind::Decls(vec![CDeclId(1)]));
    ctx.prune_unwanted_decls(false);
    assert_eq!(kept(&ctx), vec![1, 100]);
}

#[test]
fn children_of_nodes() {
    let mut ctx = context();
    let call = CExprKind::Call(q(1), CExprId(5), vec![CExprId(6), CExprId(7)]);
    add_expr(&mut ctx, 1, call);
    add_expr(&mut ctx, 2, CExprKind::Paren(q(1), CExprId(1)));
    let expected = vec![
        SomeId::Type(CTypeId(1)),
        SomeId::Expr(CExprId(5)),
        SomeId::Expr(CExprId(6)),
        SomeId::Expr(CExprId(7)),
    ];
    assert_eq!(ctx.immediate_children(SomeId::Expr(CExprId(1))), expected);
    assert_eq!(ctx.immediate_children(SomeId::Expr(CExprId(2))), expected);
    let types = ctx.immediate_children(SomeId::Type(CTypeId(2)));
    assert_eq!(types, vec![SomeId::Type(CTypeId(1))]);
    let for_loop = CStmtKind::ForLoop {
        init: Some(CStmtId(1)),
        condition: None,
        increment: Some(CExprId(1)),
        body: CStmtId(1),
    };
    add_stmt(&mut ctx, 2, for_loop);
    let parts = ctx.immediate_children(SomeId::Stmt(CStmtId(2)));
    let stmt = SomeId::Stmt(CStmtId(1));
    assert_eq!(parts, vec![stmt, SomeId::Expr(CExprId(1)), stmt]);
}

#[test]
fn top_declarations_are_sorted_by_place() {
    let files = [
        SrcFile { path: Some(String::from("main.c")), include_loc: None },
        SrcFile {
            path: Some(String::from("a.h")),
            include_loc: Some(SrcLoc { fileid: 0, line: 5, column: 1 }),
        },
    ];
    let mut ctx = TypedAstContext::new(&files);
    let places = [(1, 0, 9), (2, 1, 4), (3, 0, 1), (4, 1, 2), (5, 0, 6), (6, 1, 99), (7, 0, 4)];
    for (id, fileid, line) in places {
        let loc = SrcSpan {
            fileid,
            begin_line: line,
            begin_column: 1,
            end_line: line,
            end_column: 2,
        };
        let kind = CDeclKind::MacroObject { name: String::from("M") };
        ctx.nodes.insert_decl(id, Located { loc: Some(loc), kind });
        ctx.c_decls_top.push(CDeclId(id));
    }
    let nowhere = CDeclKind::MacroObject { name: String::from("N") };
    add_decl(&mut ctx, 8, nowhere);
    ctx.c_decls_top.push(CDeclId(8));
    ctx.sort_top_decls();
    let order: Vec<u64> = ctx.c_decls_top.iter().map(|id| id.0).collect();
    assert_eq!(order, vec![8, 3, 7, 4, 2, 6, 5, 1]);
    ctx.sort_top_decls();
    let again: Vec<u64> = ctx.c_decls_top.iter().map(|id| id.0).collect();
    assert_eq!(again, order);
}

#[test]
fn nested_files_are_sorted_into_the_file_that_pulls_them_in() {
    let file = |path: &str, from: Option<(u64, u64)>| SrcFile {
        path: Some(String::from(path)),
        include_loc: from.map(|(fileid, line)| SrcLoc { fileid, line, column: 1 }),
    };
    let files = [file("a.c", None), file("b.h", Some((0, 5))), file("c.h", Some((1, 3)))];
    let mut ctx = TypedAstContext::new(&files);
    for (id, fileid, line) in [(1, 0, 6), (2, 1, 4), (3, 2, 50), (4, 1, 2), (5, 0, 1), (6, 2, 1)] {
        let loc = SrcSpan {
            fileid,
            begin_line: line,
            begin_column: 1,
            end_line: line,
            end_column: 2,
        };
        let kind = CDeclKind::MacroObject { name: String::from("M") };
        ctx.nodes.insert_decl(id, Located { loc: Some(loc), kind });
        ctx.c_decls_top.push(CDeclId(id));
    }
    ctx.sort_top_decls();
    let order: Vec<u64> = ctx.c_decls_top.iter().map(|id| id.0).collect();
    assert_eq!(order, vec![5, 4, 6, 3, 2, 1]);
}

#[test]
fn a_lone_place_is_compared_with_none() {
    let mut ctx = context();
    let loc =
        SrcSpan { fileid: 77, begin_line: 1, begin_column: 1, end_line: 1, end_column: 2 };
    let kind = CDeclKind::MacroObject { name: String::from("M") };
    ctx.nodes.insert_decl(1, Located { loc: Some(loc), kind });
    for id in 2..5 {
        add_decl(&mut ctx, id, CDeclKind::MacroObject { name: String::from("N") });
    }
    ctx.c_decls_top = vec![CDeclId(1), CDeclId(2), CDeclId(3), CDeclId(4)];
    ctx.sort_top_decls();
    assert_eq!(ctx.c_decls_top[3], CDeclId(1));
    ctx.c_decls_top = vec![CDeclId(99)];
    ctx.sort_top_decls();
    assert_eq!(ctx.c_decls_top, vec![CDeclId(99)]);
}
