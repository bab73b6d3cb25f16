//! Where nodes are, and which of two places comes first in a translation unit.

use crate::context::TypedAstContext;
use crate::files::{
    distinct_files, include_path, is_first_with_path, law_files_are_included_once, none_with_path, path_text,
    SourceTable,
};
use crate::ids::FileId;
use crate::source::{Located, SrcFile, SrcLoc, SrcSpan};
use crate::text::{append_decimal, decimal};
use std::cmp::Ordering;
use vstd::prelude::*;

verus! {

/// How one place lies to another.
#[derive(Debug, Copy, Clone, PartialEq, Eq, Structural)]
pub enum SrcOrder {
    Before,
    Same,
    After,
}

impl SrcOrder {
    /// The order seen from the other side.
    pub open spec fn reverse(self) -> SrcOrder {
        match self {
            SrcOrder::Before => SrcOrder::After,
            SrcOrder::Same => SrcOrder::Same,
            SrcOrder::After => SrcOrder::Before,
        }
    }
}

/// By line, then by column, without regard to the file.
pub open spec fn position_order(a: SrcLoc, b: SrcLoc) -> SrcOrder {
    if a.line < b.line || (a.line == b.line && a.column < b.column) {
        SrcOrder::Before
    } else if a.line == b.line && a.column == b.column {
        SrcOrder::Same
    } else {
        SrcOrder::After
    }
}

/// The order of the places `a` and `b` in files that were pulled in through
/// `path_a` and `path_b`.
///
/// The first places on the two paths with different files decide. Where one
/// path is the start of the other, the next place on the longer one stands
/// for the place it leads to.
pub open spec fn path_order(
    path_a: Seq<SrcLoc>,
    path_b: Seq<SrcLoc>,
    a: SrcLoc,
    b: SrcLoc,
) -> SrcOrder
    decreases path_a.len(),
{
    if path_a.len() == 0 && path_b.len() == 0 {
        position_order(a, b)
    } else if path_a.len() == 0 {
        position_order(a, path_b[0])
    } else if path_b.len() == 0 {
        position_order(path_a[0], b)
    } else if path_a[0].fileid != path_b[0].fileid {
        position_order(path_a[0], path_b[0])
    } else {
        path_order(path_a.drop_first(), path_b.drop_first(), a, b)
    }
}

/// The place lies in a file that the table has.
pub open spec fn is_placed(sources: SourceTable, loc: SrcLoc) -> bool {
    sources.spec_place(loc.fileid) is Some
}

/// The places through which the file of `loc` was pulled in.
pub open spec fn path_to(sources: SourceTable, loc: SrcLoc) -> Seq<SrcLoc> {
    sources.include_map()[sources.spec_place(loc.fileid).unwrap() as int]
}

/// Which of two places comes first in the translation unit.
pub open spec fn src_order(sources: SourceTable, a: SrcLoc, b: SrcLoc) -> SrcOrder {
    path_order(path_to(sources, a), path_to(sources, b), a, b)
}

proof fn lemma_path_order_reverses(
    path_a: Seq<SrcLoc>,
    path_b: Seq<SrcLoc>,
    a: SrcLoc,
    b: SrcLoc,
)
    ensures
        path_order(path_b, path_a, b, a) == path_order(path_a, path_b, a, b).reverse(),
    decreases path_a.len(),
{
    if path_a.len() > 0 && path_b.len() > 0 && path_a[0].fileid == path_b[0].fileid {
        lemma_path_order_reverses(path_a.drop_first(), path_b.drop_first(), a, b);
    }
}

proof fn lemma_path_order_within(path: Seq<SrcLoc>, a: SrcLoc, b: SrcLoc)
    ensures
        path_order(path, path, a, b) == position_order(a, b),
    decreases path.len(),
{
    if path.len() > 0 {
        lemma_path_order_within(path.drop_first(), a, b);
    }
}

/// Seen from the other place, the order is the reverse.
pub proof fn law_order_reverses(sources: SourceTable, a: SrcLoc, b: SrcLoc)
    ensures
        src_order(sources, b, a) == src_order(sources, a, b).reverse(),
{
    lemma_path_order_reverses(path_to(sources, a), path_to(sources, b), a, b);
}

/// Two places in one kept file are ordered by line and column.
pub proof fn law_order_within_file(sources: SourceTable, a: SrcLoc, b: SrcLoc)
    requires
        sources.spec_place(a.fileid) == sources.spec_place(b.fileid),
    ensures
        src_order(sources, a, b) == position_order(a, b),
{
    lemma_path_order_within(path_to(sources, a), a, b);
}

/// For the first `n` places the two paths lead through the same files.
pub open spec fn go_together(path_a: Seq<SrcLoc>, path_b: Seq<SrcLoc>, n: int) -> bool {
    &&& n <= path_a.len()
    &&& n <= path_b.len()
    &&& forall|i: int|
        0 <= i < n ==> (#[trigger] path_a[i]).fileid == (#[trigger] path_b[i]).fileid
}

proof fn lemma_path_order_after(
    path_a: Seq<SrcLoc>,
    path_b: Seq<SrcLoc>,
    a: SrcLoc,
    b: SrcLoc,
    n: int,
)
    requires
        0 <= n,
        go_together(path_a, path_b, n),
    ensures
        path_order(path_a, path_b, a, b) == path_order(path_a.skip(n), path_b.skip(n), a, b),
    decreases n,
{
    if n == 0 {
        assert(path_a.skip(0) =~= path_a);
        assert(path_b.skip(0) =~= path_b);
    } else {
        let rest_a = path_a.drop_first();
        let rest_b = path_b.drop_first();
        assert(path_a[0].fileid == path_b[0].fileid);
        assert forall|i: int| 0 <= i < n - 1 implies (#[trigger] rest_a[i]).fileid == (
        #[trigger] rest_b[i]).fileid by {
            assert(path_a[i + 1].fileid == path_b[i + 1].fileid);
        }
        lemma_path_order_after(rest_a, rest_b, a, b, n - 1);
        assert(rest_a.skip(n - 1) =~= path_a.skip(n));
        assert(rest_b.skip(n - 1) =~= path_b.skip(n));
    }
}

/// A place in a file is ordered against one in a file that was pulled in from
/// there, directly or not, by the place in the first file that leads to it.
pub proof fn law_order_against_included(sources: SourceTable, a: SrcLoc, b: SrcLoc)
    requires
        path_to(sources, a).len() < path_to(sources, b).len(),
        go_together(
            path_to(sources, a),
            path_to(sources, b),
            path_to(sources, a).len() as int,
        ),
    ensures
        src_order(sources, a, b) == position_order(
            a,
            path_to(sources, b)[path_to(sources, a).len() as int],
        ),
{
    lemma_path_order_after(
        path_to(sources, a),
        path_to(sources, b),
        a,
        b,
        path_to(sources, a).len() as int,
    );
}

/// Places whose paths part are ordered by the two places where they part.
pub proof fn law_order_where_paths_part(sources: SourceTable, a: SrcLoc, b: SrcLoc, n: int)
    requires
        0 <= n < path_to(sources, a).len(),
        n < path_to(sources, b).len(),
        go_together(path_to(sources, a), path_to(sources, b), n),
        path_to(sources, a)[n].fileid != path_to(sources, b)[n].fileid,
    ensures
        src_order(sources, a, b) == position_order(
            path_to(sources, a)[n],
            path_to(sources, b)[n],
        ),
{
    lemma_path_order_after(path_to(sources, a), path_to(sources, b), a, b, n);
}

/// As long as the paths lead through the same files they do so at the same
/// places, and where they part one of the two places comes first.
pub open spec fn paths_agree(
    path_a: Seq<SrcLoc>,
    path_b: Seq<SrcLoc>,
    a: SrcLoc,
    b: SrcLoc,
) -> bool
    decreases path_a.len(),
{
    if path_a.len() == 0 && path_b.len() == 0 {
        true
    } else if path_a.len() == 0 {
        position_order(a, path_b[0]) != SrcOrder::Same
    } else if path_b.len() == 0 {
        position_order(path_a[0], b) != SrcOrder::Same
    } else if path_a[0].fileid != path_b[0].fileid {
        position_order(path_a[0], path_b[0]) != SrcOrder::Same
    } else {
        path_a[0] == path_b[0] && paths_agree(path_a.drop_first(), path_b.drop_first(), a, b)
    }
}

/// The ways to two places agree. They do not where a file on both was pulled
/// in at two places, or where what is in different files coincides.
pub open spec fn ways_agree(sources: SourceTable, a: SrcLoc, b: SrcLoc) -> bool {
    paths_agree(path_to(sources, a), path_to(sources, b), a, b)
}

proof fn lemma_path_order_is_transitive(
    path_a: Seq<SrcLoc>,
    path_b: Seq<SrcLoc>,
    path_c: Seq<SrcLoc>,
    a: SrcLoc,
    b: SrcLoc,
    c: SrcLoc,
)
    requires
        paths_agree(path_a, path_b, a, b),
        paths_agree(path_b, path_c, b, c),
        paths_agree(path_a, path_c, a, c),
        path_order(path_a, path_b, a, b) != SrcOrder::After,
        path_order(path_b, path_c, b, c) != SrcOrder::After,
    ensures
        path_order(path_a, path_c, a, c) != SrcOrder::After,
    decreases path_a.len(),
{
    if path_a.len() > 0 && path_b.len() > 0 && path_c.len() > 0 && path_a[0].fileid
        == path_b[0].fileid && path_b[0].fileid == path_c[0].fileid {
        lemma_path_order_is_transitive(
            path_a.drop_first(),
            path_b.drop_first(),
            path_c.drop_first(),
            a,
            b,
            c,
        );
    }
}

proof fn lemma_paths_agree(path_a: Seq<SrcLoc>, path_b: Seq<SrcLoc>, a: SrcLoc, b: SrcLoc)
    requires
        forall|i: int|
            0 <= i < path_a.len() && i < path_b.len() && (#[trigger] path_a[i]).fileid == (
            #[trigger] path_b[i]).fileid ==> path_a[i] == path_b[i],
        path_a == path_b || path_order(path_a, path_b, a, b) != SrcOrder::Same,
    ensures
        paths_agree(path_a, path_b, a, b),
    decreases path_a.len(),
{
    if path_a.len() > 0 && path_b.len() > 0 && path_a[0].fileid == path_b[0].fileid {
        let rest_a = path_a.drop_first();
        let rest_b = path_b.drop_first();
        assert forall|i: int|
            0 <= i < rest_a.len() && i < rest_b.len() && (#[trigger] rest_a[i]).fileid == (
            #[trigger] rest_b[i]).fileid implies rest_a[i] == rest_b[i] by {
            assert(path_a[i + 1].fileid == path_b[i + 1].fileid);
        }
        lemma_paths_agree(rest_a, rest_b, a, b);
    }
}

/// Where no two files that the front end read have the same path, the ways to
/// two places agree if the places lie in one file or one of them comes first.
pub proof fn law_ways_agree_without_repetition(
    sources: SourceTable,
    all: Seq<SrcFile>,
    a: SrcLoc,
    b: SrcLoc,
)
    requires
        sources.describes(all),
        distinct_files(all) == all,
        is_placed(sources, a),
        is_placed(sources, b),
        sources.spec_place(a.fileid) == sources.spec_place(b.fileid) || src_order(sources, a, b)
            != SrcOrder::Same,
    ensures
        ways_agree(sources, a, b),
{
    let id_a = sources.spec_place(a.fileid).unwrap();
    let id_b = sources.spec_place(b.fileid).unwrap();
    let path_a = path_to(sources, a);
    let path_b = path_to(sources, b);
    assert forall|i: int|
        0 <= i < path_a.len() && i < path_b.len() && (#[trigger] path_a[i]).fileid == (
        #[trigger] path_b[i]).fileid implies path_a[i] == path_b[i] by {
        law_files_are_included_once(sources, all, id_a, i, id_b, i);
    }
    lemma_paths_agree(path_a, path_b, a, b);
}

/// Where the ways to three places agree, their order is transitive.
pub proof fn law_order_is_transitive(sources: SourceTable, a: SrcLoc, b: SrcLoc, c: SrcLoc)
    requires
        ways_agree(sources, a, b),
        ways_agree(sources, b, c),
        ways_agree(sources, a, c),
        src_order(sources, a, b) != SrcOrder::After,
        src_order(sources, b, c) != SrcOrder::After,
    ensures
        src_order(sources, a, c) != SrcOrder::After,
{
    lemma_path_order_is_transitive(
        path_to(sources, a),
        path_to(sources, b),
        path_to(sources, c),
        a,
        b,
        c,
    );
}

/// Compares two places without regard to the file.
fn compare_positions(a: &SrcLoc, b: &SrcLoc) -> (r: SrcOrder)
    ensures
        r == position_order(*a, *b),
{
    if a.line < b.line || (a.line == b.line && a.column < b.column) {
        SrcOrder::Before
    } else if a.line == b.line && a.column == b.column {
        SrcOrder::Same
    } else {
        SrcOrder::After
    }
}

/// Compares two places of a translation unit.
pub fn compare_places(sources: &SourceTable, a: &SrcLoc, b: &SrcLoc) -> (r: SrcOrder)
    requires
        sources.wf(),
        is_placed(*sources, *a),
        is_placed(*sources, *b),
    ensures
        r == src_order(*sources, *a, *b),
{
    let path_a = sources.includes(sources.place(a.fileid).unwrap());
    let path_b = sources.includes(sources.place(b.fileid).unwrap());
    let mut i: usize = 0;
    assert(path_a@.skip(0) =~= path_a@);
    assert(path_b@.skip(0) =~= path_b@);
    while i < path_a.len() && i < path_b.len()
        invariant
            i <= path_a.len(),
            i <= path_b.len(),
            src_order(*sources, *a, *b) == path_order(
                path_a@.skip(i as int),
                path_b@.skip(i as int),
                *a,
                *b,
            ),
        decreases path_a.len() - i,
    {
        if path_a[i].fileid != path_b[i].fileid {
            return compare_positions(&path_a[i], &path_b[i]);
        }
        assert(path_a@.skip(i as int).drop_first() =~= path_a@.skip(i + 1));
        assert(path_b@.skip(i as int).drop_first() =~= path_b@.skip(i + 1));
        i = i + 1;
    }
    if i < path_b.len() {
        // Compare the place that leads from a's file to b with a.
        compare_positions(a, &path_b[i])
    } else if i < path_a.len() {
        // Compare the place that leads from b's file to a with b.
        compare_positions(&path_a[i], b)
    } else {
        compare_positions(a, b)
    }
}

/// A location together with the path of its file, ready to be shown.
#[derive(Debug, Clone)]
pub struct DisplaySrcSpan {
    pub file: Option<String>,
    pub loc: SrcSpan,
}

impl DisplaySrcSpan {
    /// `path:line:column`, or all the fields where the file has no path.
    pub open spec fn spec_text(&self) -> Seq<char> {
        match self.file {
            Some(path) => path@ + ":"@ + decimal(self.loc.begin_line as nat) + ":"@ + decimal(
                self.loc.begin_column as nat,
            ),
            None => "DisplaySrcSpan { file: None, loc: SrcSpan { fileid: "@ + decimal(
                self.loc.fileid as nat,
            ) + ", begin_line: "@ + decimal(self.loc.begin_line as nat) + ", begin_column: "@
                + decimal(self.loc.begin_column as nat) + ", end_line: "@ + decimal(
                self.loc.end_line as nat,
            ) + ", end_column: "@ + decimal(self.loc.end_column as nat) + " } }"@,
        }
    }

    /// The location as text.
    pub fn to_text(&self) -> (r: String)
        ensures
            r@ == self.spec_text(),
    {
        let mut out = String::new();
        match &self.file {
            Some(path) => {
                out.append(path.as_str());
                out.append(":");
                append_decimal(&mut out, self.loc.begin_line);
                out.append(":");
                append_decimal(&mut out, self.loc.begin_column);
            },
            None => {
                out.append("DisplaySrcSpan { file: None, loc: SrcSpan { fileid: ");
                append_decimal(&mut out, self.loc.fileid);
                out.append(", begin_line: ");
                append_decimal(&mut out, self.loc.begin_line);
                out.append(", begin_column: ");
                append_decimal(&mut out, self.loc.begin_column);
                out.append(", end_line: ");
                append_decimal(&mut out, self.loc.end_line);
                out.append(", end_column: ");
                append_decimal(&mut out, self.loc.end_column);
                out.append(" } }");
            },
        }
        assert(out@ =~= self.spec_text());
        out
    }
}

impl TypedAstContext {
    /// The location with the path of its file.
    pub fn display_loc(&self, loc: &Option<SrcSpan>) -> (r: Option<DisplaySrcSpan>)
        requires
            self.sources.wf(),
            loc matches Some(span) ==> self.sources.spec_place(span.fileid) is Some,
        ensures
            r == (match *loc {
                Some(span) => Some(
                    DisplaySrcSpan {
                        file: self.sources.files()[self.sources.spec_place(
                            span.fileid,
                        ).unwrap() as int].path,
                        loc: span,
                    },
                ),
                None => None,
            }),
    {
        match loc {
            Some(span) => {
                let id = self.sources.place(span.fileid).unwrap();
                let file = self.sources.file(id).duplicate();
                Some(DisplaySrcSpan { file: file.path, loc: *span })
            },
            None => None,
        }
    }

    /// The path of the file that a node is in, if both are known.
    pub fn get_source_path<'a, T>(&'a self, node: &Located<T>) -> (r: Option<&'a str>)
        requires
            self.sources.wf(),
        ensures
            match (self.spec_file_id(node), r) {
                (Some(id), Some(path)) => path_text(self.sources.files()[id as int]) == Some(path@),
                (Some(id), None) => path_text(self.sources.files()[id as int]) is None,
                (None, Some(_)) => false,
                (None, None) => true,
            },
    {
        match self.file_id(node) {
            Some(id) => self.get_file_path(id),
            None => None,
        }
    }

    /// The path of a kept file, if it has one.
    pub fn get_file_path<'a>(&'a self, id: FileId) -> (r: Option<&'a str>)
        requires
            id < self.sources.files().len(),
        ensures
            match r {
                Some(path) => path_text(self.sources.files()[id as int]) == Some(path@),
                None => path_text(self.sources.files()[id as int]) is None,
            },
    {
        match &self.sources.file(id).path {
            Some(path) => Some(path.as_str()),
            None => None,
        }
    }

    /// Which of two places comes first in the translation unit.
    pub fn compare_src_locs(&self, a: &SrcLoc, b: &SrcLoc) -> (r: Ordering)
        requires
            self.sources.wf(),
            is_placed(self.sources, *a),
            is_placed(self.sources, *b),
        ensures
            match r {
                Ordering::Less => src_order(self.sources, *a, *b) == SrcOrder::Before,
                Ordering::Equal => src_order(self.sources, *a, *b) == SrcOrder::Same,
                Ordering::Greater => src_order(self.sources, *a, *b) == SrcOrder::After,
            },
    {
        match compare_places(&self.sources, a, b) {
            SrcOrder::Before => Ordering::Less,
            SrcOrder::Same => Ordering::Equal,
            SrcOrder::After => Ordering::Greater,
        }
    }

    /// The line of the outermost place through which a kept file was pulled
    /// in, if it was pulled in at all.
    pub fn get_file_include_line_number(&self, file: FileId) -> (r: Option<u64>)
        requires
            file < self.sources.include_map().len(),
        ensures
            r == (if self.sources.include_map()[file as int].len() > 0 {
                Some(self.sources.include_map()[file as int][0].line)
            } else {
                None
            }),
    {
        let path = self.sources.includes(file);
        if path.len() > 0 {
            Some(path[0].line)
        } else {
            None
        }
    }

    /// The first kept file with that path.
    pub fn find_file_id(&self, path: &str) -> (r: Option<FileId>)
        ensures
            match r {
                Some(i) => is_first_with_path(self.sources.files(), Some(path@), i as int),
                None => none_with_path(self.sources.files(), Some(path@)),
            },
    {
        self.sources.find(path)
    }

    pub open spec fn spec_file_id<T>(&self, located: &Located<T>) -> Option<FileId> {
        match located.loc {
            Some(span) => self.sources.spec_place(span.fileid),
            None => None,
        }
    }

    /// Where the file that a node is in is kept, if the node has a location in
    /// a file that the front end read.
    #[verifier::when_used_as_spec(spec_file_id)]
    pub fn file_id<T>(&self, located: &Located<T>) -> (r: Option<FileId>)
        ensures
            r == self.spec_file_id(located),
    {
        match located.loc {
            Some(span) => self.sources.place(span.fileid),
            None => None,
        }
    }
}

/// Positions go by line first and by column within a line.
pub proof fn law_positions_go_by_line_and_column(a: SrcLoc, b: SrcLoc)
    ensures
        a.line < b.line ==> position_order(a, b) == SrcOrder::Before,
        a.line > b.line ==> position_order(a, b) == SrcOrder::After,
        a.line == b.line && a.column < b.column ==> position_order(a, b) == SrcOrder::Before,
        a.line == b.line && a.column > b.column ==> position_order(a, b) == SrcOrder::After,
        a.line == b.line && a.column == b.column ==> position_order(a, b) == SrcOrder::Same,
{
}

/// Of two places in one kept file the one on the earlier line comes first, and
/// on one line the one in the earlier column.
pub proof fn law_order_within_file_goes_by_line_and_column(
    sources: SourceTable,
    a: SrcLoc,
    b: SrcLoc,
)
    requires
        sources.spec_place(a.fileid) == sources.spec_place(b.fileid),
    ensures
        src_order(sources, a, b) == SrcOrder::Before <==> a.line < b.line || (a.line == b.line
            && a.column < b.column),
        src_order(sources, a, b) == SrcOrder::Same <==> a.line == b.line && a.column == b.column,
{
    law_order_within_file(sources, a, b);
}

/// Places with ways through the same files are ordered by their positions.
pub proof fn law_order_with_equal_ways(sources: SourceTable, a: SrcLoc, b: SrcLoc)
    requires
        path_to(sources, a).len() == path_to(sources, b).len(),
        go_together(
            path_to(sources, a),
            path_to(sources, b),
            path_to(sources, a).len() as int,
        ),
    ensures
        src_order(sources, a, b) == position_order(a, b),
{
    lemma_path_order_after(
        path_to(sources, a),
        path_to(sources, b),
        a,
        b,
        path_to(sources, a).len() as int,
    );
}

/// The file of a place is looked up by its number, and the way to the place is
/// the one to that file.
pub proof fn law_ways_lead_to_the_file(sources: SourceTable, all: Seq<SrcFile>, loc: SrcLoc)
    requires
        sources.describes(all),
    ensures
        is_placed(sources, loc) <==> (loc.fileid as usize) < all.len(),
        is_placed(sources, loc) ==> {
            let id = sources.spec_place(loc.fileid).unwrap();
            &&& is_first_with_path(
                distinct_files(all),
                path_text(all[loc.fileid as usize as int]),
                id as int,
            )
            &&& path_to(sources, loc) == include_path(all, distinct_files(all)[id as int])
        },
{
}

/// A location with a path is shown as that path, the line and the column where
/// it begins, with colons between them.
pub proof fn law_shown_locations(shown: DisplaySrcSpan)
    requires
        shown.file is Some,
    ensures
        shown.spec_text() == shown.file.unwrap()@ + seq![':'] + decimal(
            shown.loc.begin_line as nat,
        ) + seq![':'] + decimal(shown.loc.begin_column as nat),
{
    reveal_strlit(":");
    assert(":"@ =~= seq![':']);
}

} // verus!
