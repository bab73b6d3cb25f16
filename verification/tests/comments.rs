use c_ast::{CommentContext, Located, SrcFile, SrcLoc, SrcSpan, TypedAstContext};

fn files() -> Vec<SrcFile> {
    let file = |path: &str, from: Option<SrcLoc>| SrcFile {
        path: Some(String::from(path)),
        include_loc: from,
    };
    vec![
        file("main.c", None),
        file("a.h", Some(SrcLoc { fileid: 0, line: 3, column: 1 })),
        file("main.c", None),
    ]
}

fn at(fileid: u64, line: u64) -> SrcLoc {
    SrcLoc { fileid, line, column: 1 }
}

fn comment(fileid: u64, line: u64, column: u64, text: &str) -> Located<String> {
    let loc = SrcSpan {
        fileid,
        begin_line: line,
        begin_column: column,
        end_line: line,
        end_column: column + 4,
    };
    Located { loc: Some(loc), kind: String::from(text) }
}

fn context() -> TypedAstContext {
    let mut ctx = TypedAstContext::new(&files());
    ctx.comments = vec![
        comment(0, 9, 1, "nine"),
        comment(0, 2, 5, "two b"),
        comment(1, 1, 1, "header"),
        comment(2, 2, 1, "two a"),
        comment(0, 4, 1, "four"),
        Located { loc: None, kind: String::from("nowhere") },
        comment(7, 1, 1, "unknown file"),
    ];
    ctx
}

#[test]
fn comments_come_out_in_source_order() {
    let mut ctx = context();
    let mut comments = CommentContext::new(&mut ctx);
    assert_eq!(comments.get_comments_before(at(0, 4), &ctx), vec!["two a", "two b"]);
    assert_eq!(comments.get_comments_before(at(0, 5), &ctx), vec!["four"]);
    assert!(comments.get_comments_before(at(0, 5), &ctx).is_empty());
    assert_eq!(comments.get_comments_before(at(2, 50), &ctx), vec!["nine"]);
    assert!(comments.get_comments_before(at(0, 99), &ctx).is_empty());
}

#[test]
fn each_file_has_its_own_comments() {
    let mut ctx = context();
    let mut comments = CommentContext::new(&mut ctx);
    assert!(comments.get_comments_before(at(1, 1), &ctx).is_empty());
    assert_eq!(comments.get_comments_before(at(1, 2), &ctx), vec!["header"]);
    assert_eq!(comments.get_comments_before(at(0, 3), &ctx), vec!["two a", "two b"]);
    assert_eq!(ctx.comments.len(), 7);
}

#[test]
fn comments_before_a_node() {
    let mut ctx = context();
    let mut comments = CommentContext::new(&mut ctx);
    let node = comment(0, 4, 1, "");
    assert_eq!(comments.get_comments_before_located(&node, &ctx), vec!["two a", "two b"]);
    let nowhere: Located<u8> = Located { loc: None, kind: 0 };
    assert!(comments.get_comments_before_located(&nowhere, &ctx).is_empty());
    assert_eq!(comments.get_remaining_comments(0), vec!["nine", "four"]);
}

#[test]
fn the_next_comment_is_seen_on_its_line_only() {
    let mut ctx = context();
    let mut comments = CommentContext::new(&mut ctx);
    assert!(comments.peek_next_comment_on_line(at(0, 1), &ctx).is_none());
    let next = comments.peek_next_comment_on_line(at(0, 2), &ctx).unwrap();
    assert_eq!(next.kind, "two a");
    assert_eq!(next.begin_loc().unwrap().column, 1);
    comments.advance_comment(0);
    assert_eq!(comments.peek_next_comment_on_line(at(0, 2), &ctx).unwrap().kind, "two b");
    comments.advance_comment(0);
    assert!(comments.peek_next_comment_on_line(at(0, 2), &ctx).is_none());
    assert_eq!(comments.get_remaining_comments(0), vec!["nine", "four"]);
}

#[test]
fn advancing_past_the_end_does_nothing() {
    let mut ctx = context();
    let mut comments = CommentContext::new(&mut ctx);
    for _ in 0..3 {
        comments.advance_comment(1);
    }
    comments.advance_comment(17);
    assert!(comments.peek_next_comment_on_line(at(1, 1), &ctx).is_none());
    assert!(comments.get_remaining_comments(1).is_empty());
    assert!(comments.get_remaining_comments(17).is_empty());
}

#[test]
fn what_remains_comes_out_once_and_backwards() {
    let mut ctx = context();
    let mut comments = CommentContext::new(&mut ctx);
    assert_eq!(comments.get_remaining_comments(0), vec!["nine", "four", "two b", "two a"]);
    assert!(comments.get_remaining_comments(0).is_empty());
    assert_eq!(comments.get_remaining_comments(1), vec!["header"]);
}

#[test]
fn comments_at_one_place_keep_their_order_in_the_list() {
    let mut ctx = TypedAstContext::new(&files());
    ctx.comments = vec![
        comment(0, 1, 1, "a"),
        comment(0, 1, 1, "b"),
        comment(0, 2, 1, "last"),
        comment(0, 1, 1, "c"),
    ];
    let mut comments = CommentContext::new(&mut ctx);
    assert_eq!(comments.clone().get_remaining_comments(0), vec!["last", "a", "b", "c"]);
    assert_eq!(comments.get_comments_before(at(0, 2), &ctx), vec!["c", "b", "a"]);
}

#[test]
fn many_comments_are_sorted() {
    let mut ctx = TypedAstContext::new(&files());
    for i in 0..500u64 {
        let line = (i * 37) % 500 + 1;
        ctx.comments.push(comment(0, line, 1, &line.to_string()));
    }
    let mut comments = CommentContext::new(&mut ctx);
    let out = comments.get_comments_before(at(0, 501), &ctx);
    let expected: Vec<String> = (1..501).map(|line| line.to_string()).collect();
    assert_eq!(out, expected);
}

#[test]
fn an_empty_context_has_no_comments() {
    let ctx = context();
    let mut comments = CommentContext::empty();
    assert!(comments.get_comments_before(at(0, 99), &ctx).is_empty());
    assert!(comments.peek_next_comment_on_line(at(0, 2), &ctx).is_none());
    comments.advance_comment(0);
    assert!(comments.get_remaining_comments(0).is_empty());
}
