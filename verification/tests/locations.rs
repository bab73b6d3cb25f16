use c_ast::paths::paths_equal;
use c_ast::{
    BuiltinVaListKind, CDeclId, CDeclKind, CExprId, CExprKind, CStmtId, CStmtKind, CTypeId,
    CTypeKind, DisplaySrcSpan, Located, SomeId, SrcFile, SrcLoc, SrcSpan, TypedAstContext,
};
use std::cmp::Ordering;
use std::path::Path;

fn file(path: &str, from: Option<(u64, u64)>) -> SrcFile {
    SrcFile {
        path: Some(String::from(path)),
        include_loc: from.map(|(fileid, line)| SrcLoc { fileid, line, column: 1 }),
    }
}

/// A main file that pulls in `a.h` on line 2, which pulls in `b.h` on its
/// line 7, and `c.h` on line 4. `a.h` shows up a second time.
fn unit() -> TypedAstContext {
    TypedAstContext::new(&[
        file("main.c", None),
        file("a.h", Some((0, 2))),
        file("b.h", Some((1, 7))),
        file("c.h", Some((0, 4))),
        file("./a.h", Some((3, 1))),
        file("a.h//", Some((3, 1))),
        SrcFile { path: None, include_loc: None },
    ])
}

fn at(fileid: u64, line: u64, column: u64) -> SrcLoc {
    SrcLoc { fileid, line, column }
}

fn span(fileid: u64, line: u64) -> SrcSpan {
    SrcSpan { fileid, begin_line: line, begin_column: 3, end_line: line + 1, end_column: 9 }
}

fn located(fileid: u64) -> Located<u8> {
    Located { loc: Some(span(fileid, 1)), kind: 0 }
}

#[test]
fn a_new_context_is_empty() {
    let ctx = unit();
    assert!(ctx.iter_decls().is_empty());
    assert!(ctx.c_decls_top.is_empty());
    assert!(ctx.c_main.is_none());
    assert!(ctx.comments.is_empty());
    assert!(ctx.prenamed_decls.is_empty());
    assert_eq!(ctx.va_list_kind, BuiltinVaListKind::CharPtrBuiltinVaList);
    assert_eq!(ctx.target, "");
}

#[test]
fn files_are_kept_once_per_path() {
    let ctx = unit();
    assert_eq!(ctx.file_id(&located(0)), Some(0));
    assert_eq!(ctx.file_id(&located(1)), Some(1));
    assert_eq!(ctx.file_id(&located(3)), Some(3));
    assert_eq!(ctx.file_id(&located(4)), Some(4));
    assert_eq!(ctx.file_id(&located(5)), Some(1));
    assert_eq!(ctx.file_id(&located(6)), Some(5));
    assert_eq!(ctx.file_id(&located(7)), None);
    assert_eq!(ctx.file_id(&Located { loc: None, kind: 0 }), None);
}

#[test]
fn paths_of_files_and_nodes() {
    let ctx = unit();
    assert_eq!(ctx.get_file_path(2), Some("b.h"));
    assert_eq!(ctx.get_file_path(5), None);
    assert_eq!(ctx.get_source_path(&located(5)), Some("a.h"));
    assert_eq!(ctx.get_source_path(&located(6)), None);
    assert_eq!(ctx.get_source_path(&located(99)), None);
}

#[test]
fn files_are_found_by_path() {
    let ctx = unit();
    for id in 0..5 {
        let path = ctx.get_file_path(id).unwrap();
        assert_eq!(ctx.find_file_id(path), Some(id));
    }
    assert_eq!(ctx.find_file_id("a.h/."), Some(1));
    assert_eq!(ctx.find_file_id("/a.h"), None);
    assert_eq!(ctx.find_file_id(""), None);
}

#[test]
fn paths_compare_as_those_of_std() {
    let paths = [
        "", ".", "..", "/", "//", "a", "./a", "a/", "a//", "a/.", "/a", "a/b", "a//b", "a/./b",
        "a/b/", "a/../b", "./a/b", "/./a", "/a/.", "././a", "a/.b", ".a", "a.", "b",
    ];
    for a in paths {
        for b in paths {
            assert_eq!(paths_equal(a, b), Path::new(a) == Path::new(b), "{:?} {:?}", a, b);
        }
    }
}

#[test]
fn the_outermost_line_leads_to_a_file() {
    let ctx = unit();
    assert_eq!(ctx.get_file_include_line_number(0), None);
    assert_eq!(ctx.get_file_include_line_number(1), Some(2));
    assert_eq!(ctx.get_file_include_line_number(2), Some(2));
    assert_eq!(ctx.get_file_include_line_number(3), Some(4));
    assert_eq!(ctx.get_file_include_line_number(4), Some(4));
}

#[test]
fn places_in_one_file_go_by_line_and_column() {
    let ctx = unit();
    assert_eq!(ctx.compare_src_locs(&at(1, 1, 9), &at(1, 2, 1)), Ordering::Less);
    assert_eq!(ctx.compare_src_locs(&at(1, 2, 1), &at(5, 2, 3)), Ordering::Less);
    assert_eq!(ctx.compare_src_locs(&at(1, 2, 3), &at(1, 2, 3)), Ordering::Equal);
    assert_eq!(ctx.compare_src_locs(&at(0, 3, 1), &at(0, 2, 5)), Ordering::Greater);
}

#[test]
fn places_in_two_files_go_by_the_line_that_leads_there() {
    let ctx = unit();
    assert_eq!(ctx.compare_src_locs(&at(0, 1, 1), &at(1, 90, 1)), Ordering::Less);
    assert_eq!(ctx.compare_src_locs(&at(0, 3, 1), &at(1, 90, 1)), Ordering::Greater);
    assert_eq!(ctx.compare_src_locs(&at(0, 2, 1), &at(1, 90, 1)), Ordering::Equal);
    assert_eq!(ctx.compare_src_locs(&at(1, 90, 1), &at(3, 1, 1)), Ordering::Less);
    assert_eq!(ctx.compare_src_locs(&at(3, 1, 1), &at(2, 90, 1)), Ordering::Greater);
}

#[test]
fn places_go_by_the_line_that_pulls_the_other_file_in() {
    let ctx = unit();
    // Line 7 of `a.h` leads to `b.h`.
    assert_eq!(ctx.compare_src_locs(&at(1, 6, 1), &at(2, 90, 1)), Ordering::Less);
    assert_eq!(ctx.compare_src_locs(&at(1, 8, 1), &at(2, 1, 1)), Ordering::Greater);
    assert_eq!(ctx.compare_src_locs(&at(2, 90, 1), &at(1, 99, 1)), Ordering::Less);
}

fn nested() -> TypedAstContext {
    TypedAstContext::new(&[
        file("a.c", None),
        file("b.h", Some((0, 5))),
        file("c.h", Some((1, 3))),
        file("d.h", Some((1, 8))),
    ])
}

#[test]
fn include_paths_carry_the_file_that_is_pulled_in() {
    let ctx = nested();
    let path = |id| -> Vec<(u64, u64, u64)> {
        ctx.sources.includes(id).iter().map(|loc| (loc.fileid, loc.line, loc.column)).collect()
    };
    assert_eq!(path(0), vec![]);
    assert_eq!(path(1), vec![(1, 5, 1)]);
    assert_eq!(path(2), vec![(1, 5, 1), (2, 3, 1)]);
    assert_eq!(path(3), vec![(1, 5, 1), (3, 8, 1)]);
}

#[test]
fn include_paths_carry_kept_files() {
    // The front end read `b.h` twice; `c.h` came in through the second time.
    let ctx = TypedAstContext::new(&[
        file("a.c", None),
        file("b.h", Some((0, 5))),
        file("b.h", Some((0, 9))),
        file("c.h", Some((2, 3))),
    ]);
    let path: Vec<(u64, u64)> =
        ctx.sources.includes(2).iter().map(|loc| (loc.fileid, loc.line)).collect();
    assert_eq!(path, vec![(1, 9), (2, 3)]);
}

#[test]
fn nested_files_are_ordered_by_where_their_paths_part() {
    let ctx = nested();
    assert_eq!(ctx.compare_src_locs(&at(1, 10, 1), &at(2, 1, 1)), Ordering::Greater);
    assert_eq!(ctx.compare_src_locs(&at(2, 99, 1), &at(3, 1, 1)), Ordering::Less);
    assert_eq!(ctx.compare_src_locs(&at(1, 7, 1), &at(3, 1, 1)), Ordering::Less);
    assert_eq!(ctx.compare_src_locs(&at(0, 6, 1), &at(3, 1, 1)), Ordering::Greater);
}

#[test]
fn the_order_is_transitive_without_repetition() {
    let ctx = nested();
    let mut places = vec![];
    for fileid in 0..4 {
        for line in [1, 2, 4, 6, 7, 9] {
            places.push(at(fileid, line, 1));
        }
    }
    let le = |a: &SrcLoc, b: &SrcLoc| ctx.compare_src_locs(a, b) != Ordering::Greater;
    for a in &places {
        for b in &places {
            for c in &places {
                assert!(!(le(a, b) && le(b, c)) || le(a, c));
            }
        }
    }
}

#[test]
fn the_order_is_reversed_from_the_other_side() {
    let ctx = unit();
    let mut places = vec![];
    for fileid in 0..7 {
        for line in 1..6 {
            places.push(at(fileid, line, 1));
        }
    }
    for a in &places {
        for b in &places {
            assert_eq!(ctx.compare_src_locs(a, b), ctx.compare_src_locs(b, a).reverse());
        }
    }
}

#[test]
fn spans_begin_and_end() {
    let s = span(4, 10);
    assert_eq!(s.begin().line, 10);
    assert_eq!(s.begin().column, 3);
    assert_eq!(s.end().line, 11);
    assert_eq!(s.end().column, 9);
    assert_eq!(s.end().fileid, 4);
    let node = located(2);
    assert_eq!(node.begin_loc().unwrap().line, 1);
    assert_eq!(node.end_loc().unwrap().line, 2);
    let nowhere: Located<u8> = Located { loc: None, kind: 0 };
    assert!(nowhere.begin_loc().is_none());
    assert!(nowhere.end_loc().is_none());
}

#[test]
fn locations_are_shown_with_their_path() {
    let ctx = unit();
    let shown = ctx.display_loc(&Some(span(5, 120))).unwrap();
    assert_eq!(shown.to_text(), "a.h:120:3");
    assert!(ctx.display_loc(&None).is_none());
}

#[test]
fn locations_without_a_path_show_all_fields() {
    let ctx = unit();
    let shown = ctx.display_loc(&Some(span(6, 0))).unwrap();
    assert_eq!(shown.to_text(), format!("{:?}", shown));
    let largest = DisplaySrcSpan {
        file: None,
        loc: SrcSpan {
            fileid: u64::MAX,
            begin_line: 0,
            begin_column: 9,
            end_line: 10,
            end_column: 1234567890,
        },
    };
    assert_eq!(largest.to_text(), format!("{:?}", largest));
}

#[test]
fn nodes_know_their_location() {
    let mut ctx = unit();
    ctx.nodes.insert_type(1, Located { loc: Some(span(0, 1)), kind: CTypeKind::Int });
    ctx.nodes.insert_expr(1, Located { loc: Some(span(0, 2)), kind: CExprKind::BadExpr });
    ctx.nodes.insert_stmt(1, Located { loc: Some(span(0, 3)), kind: CStmtKind::Empty });
    let name = String::from("m");
    let kind = CDeclKind::MacroObject { name };
    ctx.nodes.insert_decl(1, Located { loc: Some(span(0, 4)), kind });
    assert_eq!(ctx.get_src_loc(SomeId::Type(CTypeId(1))).unwrap().begin_line, 1);
    assert_eq!(ctx.get_src_loc(SomeId::Expr(CExprId(1))).unwrap().begin_line, 2);
    assert_eq!(ctx.get_src_loc(SomeId::Stmt(CStmtId(1))).unwrap().begin_line, 3);
    assert_eq!(ctx.get_src_loc(SomeId::Decl(CDeclId(1))).unwrap().begin_line, 4);
    assert!(ctx.get_src_loc(SomeId::Expr(CExprId(2))).is_none());
}
